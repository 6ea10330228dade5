//! Monochrome framebuffer with wraparound XOR sprite compositing.
//!
//! The grid is a fixed 64 x 32 bitmap of cells that are always 0 or 1.
//! Sprite rows are XORed onto the existing cells, most significant bit
//! first, wrapping both coordinates; a draw reports whether any cell
//! transitioned from set to clear.

use vstd::prelude::*;

use crate::clock::elapsed_ms;
use vstd::arithmetic::div_mod::lemma_add_mod_noop;
use vstd::arithmetic::div_mod::lemma_mod_bound;
use vstd::arithmetic::div_mod::lemma_mod_equivalence;
use vstd::arithmetic::div_mod::lemma_small_mod;

verus! {

/// Cells per row.
pub const SCREEN_WIDTH: usize = 64;

/// Rows of the grid.
pub const SCREEN_HEIGHT: usize = 32;

/// Total cells.
pub const SCREEN_SIZE: usize = 2048;

/// Minimum milliseconds between two flushes to the display collaborator.
pub const MIN_DISPLAY_INTERVAL_MS: u64 = 10;

/// Mathematical state of a [`Screen`]: the cell grid in row-major order and
/// the millisecond timestamp of the last flush.
pub struct ScreenView {
    pub fb: Seq<u8>,
    pub last_flush_ms: u64,
}

/// A well-formed grid has exactly `SCREEN_SIZE` cells, each 0 or 1.
pub open spec fn fb_wf(fb: Seq<u8>) -> bool {
    &&& fb.len() == SCREEN_SIZE
    &&& forall|i: int| 0 <= i < SCREEN_SIZE ==> fb[i] <= 1
}

/// Row-major cell index of column `col` in row `row`.
pub open spec fn pixel_index(col: int, row: int) -> int {
    row * (SCREEN_WIDTH as int) + col
}

/// Bit `k` of `byte`, most significant first.
pub open spec fn bit_at(byte: u8, k: int) -> u8 {
    (byte >> ((7 - k) as u8)) & 1
}

/// Cell hit by bit `k` of a row drawn at `(x, y)`: both coordinates wrap.
pub open spec fn row_target(x: int, k: int, y: int) -> int {
    pixel_index((x + k) % (SCREEN_WIDTH as int), y % (SCREEN_HEIGHT as int))
}

/// Grid and erased flag after XORing the first `k` bits of `byte`
/// (most significant first) at `(x, y)`.
pub open spec fn draw_row_rec(fb: Seq<u8>, byte: u8, x: int, y: int, k: nat) -> (Seq<u8>, bool)
    decreases k,
{
    if k == 0 {
        (fb, false)
    } else {
        let prev = draw_row_rec(fb, byte, x, y, (k - 1) as nat);
        let idx = row_target(x, k - 1, y);
        let was = prev.0[idx];
        let bit = bit_at(byte, k - 1);
        (prev.0.update(idx, was ^ bit), prev.1 || (was == 1 && bit == 1))
    }
}

/// Grid and erased flag after drawing one full 8-bit row at `(x, y)`.
pub open spec fn draw_row_spec(fb: Seq<u8>, byte: u8, x: int, y: int) -> (Seq<u8>, bool) {
    draw_row_rec(fb, byte, x, y, 8)
}

/// Whether `i` is one of the first `k` cells targeted by a row drawn at
/// `(x, y)`.
pub open spec fn is_row_target(x: int, y: int, i: int, k: nat) -> bool {
    exists|j: int| 0 <= j < k && i == row_target(x, j, y)
}

/// Distinct bits of one row always land on distinct cells.
proof fn lemma_row_targets_distinct(x: int, y: int, j: int, k: int)
    requires
        x >= 0,
        y >= 0,
        0 <= j < 8,
        0 <= k < 8,
        j != k,
    ensures
        row_target(x, j, y) != row_target(x, k, y),
{
    let w = SCREEN_WIDTH as int;
    if row_target(x, j, y) == row_target(x, k, y) {
        assert((x + j) % w == (x + k) % w);
        if j < k {
            lemma_mod_equivalence(x + k, x + j, w);
            assert((k - j) % w == 0);
            lemma_small_mod((k - j) as nat, w as nat);
            assert(false);
        } else {
            lemma_mod_equivalence(x + j, x + k, w);
            assert((j - k) % w == 0);
            lemma_small_mod((j - k) as nat, w as nat);
            assert(false);
        }
    }
}

/// Every row target is a cell of the grid.
proof fn lemma_row_target_in_bounds(x: int, y: int, k: int)
    requires
        x >= 0,
        y >= 0,
        0 <= k < 8,
    ensures
        0 <= row_target(x, k, y) < SCREEN_SIZE,
{
    let w = SCREEN_WIDTH as int;
    let h = SCREEN_HEIGHT as int;
    lemma_mod_bound(x + k, w);
    lemma_mod_bound(y, h);
}

/// Pointwise description of [`draw_row_rec`]: each of the first `k` bits is
/// XORed into its own cell, every other cell is untouched, and the erased
/// flag is set exactly when some targeted cell was set and its bit is set.
proof fn lemma_draw_row_rec_pointwise(fb: Seq<u8>, byte: u8, x: int, y: int, k: nat)
    requires
        fb.len() == SCREEN_SIZE,
        x >= 0,
        y >= 0,
        k <= 8,
    ensures
        draw_row_rec(fb, byte, x, y, k).0.len() == SCREEN_SIZE,
        forall|j: int|
            0 <= j < k ==> draw_row_rec(fb, byte, x, y, k).0[#[trigger] row_target(x, j, y)]
                == fb[row_target(x, j, y)] ^ bit_at(byte, j),
        forall|i: int|
            0 <= i < SCREEN_SIZE && !is_row_target(x, y, i, k)
                ==> draw_row_rec(fb, byte, x, y, k).0[i] == fb[i],
        draw_row_rec(fb, byte, x, y, k).1 == exists|j: int|
            0 <= j < k && fb[#[trigger] row_target(x, j, y)] == 1 && bit_at(byte, j) == 1,
    decreases k,
{
    if k > 0 {
        let km1 = (k - 1) as nat;
        lemma_draw_row_rec_pointwise(fb, byte, x, y, km1);
        let prev = draw_row_rec(fb, byte, x, y, km1);
        let idx = row_target(x, k - 1, y);
        lemma_row_target_in_bounds(x, y, k - 1);
        assert forall|j: int| 0 <= j < km1 implies idx != row_target(x, j, y) by {
            lemma_row_targets_distinct(x, y, j, k - 1);
        }
        assert(!is_row_target(x, y, idx, km1));
        assert(prev.0[idx] == fb[idx]);
        // Cells that are not targets of the first k bits are not the new
        // target and were untouched before.
        assert forall|i: int|
            0 <= i < SCREEN_SIZE && !is_row_target(x, y, i, k)
                implies draw_row_rec(fb, byte, x, y, k).0[i] == fb[i] by {
            assert(!is_row_target(x, y, i, km1));
            assert(i != idx);
        }
        // Earlier targets keep their value through the final update.
        assert forall|j: int|
            0 <= j < k implies draw_row_rec(fb, byte, x, y, k).0[#[trigger] row_target(x, j, y)]
                == fb[row_target(x, j, y)] ^ bit_at(byte, j) by {
            lemma_row_target_in_bounds(x, y, j);
            if j < k - 1 {
                lemma_row_targets_distinct(x, y, j, k - 1);
            }
        }
        // The new erased flag adds exactly the (k-1)-th bit's contribution.
        if draw_row_rec(fb, byte, x, y, k).1 {
            assert(prev.1 || (fb[idx] == 1 && bit_at(byte, k - 1) == 1));
            if prev.1 {
                let j = choose|j: int|
                    0 <= j < km1 && fb[#[trigger] row_target(x, j, y)] == 1 && bit_at(byte, j)
                        == 1;
                assert(0 <= j < k && fb[row_target(x, j, y)] == 1 && bit_at(byte, j) == 1);
            } else {
                assert(fb[row_target(x, k - 1, y)] == 1 && bit_at(byte, k - 1) == 1);
            }
        }
        if exists|j: int|
            0 <= j < k && fb[#[trigger] row_target(x, j, y)] == 1 && bit_at(byte, j) == 1 {
            let j = choose|j: int|
                0 <= j < k && fb[#[trigger] row_target(x, j, y)] == 1 && bit_at(byte, j) == 1;
            if j < km1 {
                assert(prev.1);
            }
            assert(draw_row_rec(fb, byte, x, y, k).1);
        }
    }
}

/// Facts about XOR on cells restricted to 0 and 1.
proof fn lemma_xor_bits()
    by (bit_vector)
    ensures
        forall|a: u8, b: u8| #[trigger] (a ^ b) == (b ^ a),
        forall|a: u8, b: u8| ((a ^ b) ^ b) == a,
        forall|a: u8, b: u8| a <= 1 && b <= 1 ==> #[trigger] (a ^ b) <= 1,
        forall|a: u8, b: u8| a <= 1 && b <= 1 ==> ((a ^ b) == 0 <==> a == b),
{
}

/// Drawing the same row twice at the same coordinates restores the grid
/// (XOR is self-inverse), and the second draw reports an erasure exactly
/// when the first draw turned some cell on.
pub proof fn lemma_draw_row_involutive(fb: Seq<u8>, byte: u8, x: int, y: int)
    requires
        fb_wf(fb),
        x >= 0,
        y >= 0,
    ensures
        draw_row_spec(draw_row_spec(fb, byte, x, y).0, byte, x, y).0 == fb,
        draw_row_spec(draw_row_spec(fb, byte, x, y).0, byte, x, y).1 == exists|j: int|
            0 <= j < 8 && fb[#[trigger] row_target(x, j, y)] == 0 && bit_at(byte, j) == 1,
{
    let first = draw_row_spec(fb, byte, x, y).0;
    lemma_draw_row_rec_pointwise(fb, byte, x, y, 8);
    lemma_draw_row_rec_pointwise(first, byte, x, y, 8);
    lemma_xor_bits();
    let second = draw_row_spec(first, byte, x, y).0;
    assert forall|i: int| 0 <= i < SCREEN_SIZE implies second[i] == fb[i] by {
        if is_row_target(x, y, i, 8) {
            let j = choose|j: int| 0 <= j < 8 && i == row_target(x, j, y);
            assert(first[i] == fb[i] ^ bit_at(byte, j));
            assert(second[i] == first[i] ^ bit_at(byte, j));
        }
    }
    assert(second =~= fb);
    // The second erased flag: first[t_j] == 1 with the bit set happens
    // exactly when the first draw set that cell from 0 to 1.
    assert forall|j: int| 0 <= j < 8 implies
        ((first[#[trigger] row_target(x, j, y)] == 1 && bit_at(byte, j) == 1) <==> (fb[row_target(
        x,
        j,
        y,
    )] == 0 && bit_at(byte, j) == 1)) by {
        lemma_row_target_in_bounds(x, y, j);
        let t = row_target(x, j, y);
        assert(first[t] == fb[t] ^ bit_at(byte, j));
        assert(bit_at(byte, j) == (byte >> ((7 - j) as u8)) & 1);
        let s = (7 - j) as u8;
        assert((byte >> s) & 1 <= 1) by (bit_vector);
        if bit_at(byte, j) == 1 {
            let cell = fb[t];
            assert(cell <= 1);
            assert((cell ^ 1u8) == 1 <==> cell == 0) by (bit_vector)
                requires cell <= 1
            ;
        }
    }
}

/// Row coordinates wrap: a row drawn at the rightmost column puts its first
/// bit there and the remaining seven bits in columns 0 through 6.
pub proof fn lemma_draw_row_wraps(fb: Seq<u8>, byte: u8, y: int)
    requires
        fb_wf(fb),
        y >= 0,
    ensures
        row_target(SCREEN_WIDTH - 1, 0, y) == pixel_index(
            SCREEN_WIDTH - 1,
            y % (SCREEN_HEIGHT as int),
        ),
        forall|k: int|
            1 <= k < 8 ==> #[trigger] row_target(SCREEN_WIDTH - 1, k, y) == pixel_index(
                k - 1,
                y % (SCREEN_HEIGHT as int),
            ),
        forall|k: int|
            0 <= k < 8 ==> draw_row_spec(fb, byte, SCREEN_WIDTH - 1, y).0[#[trigger] row_target(
                SCREEN_WIDTH - 1,
                k,
                y,
            )] == fb[row_target(SCREEN_WIDTH - 1, k, y)] ^ bit_at(byte, k),
{
    let w = SCREEN_WIDTH as int;
    lemma_small_mod((w - 1) as nat, w as nat);
    assert forall|k: int| 1 <= k < 8 implies #[trigger] row_target(w - 1, k, y) == pixel_index(
        k - 1,
        y % (SCREEN_HEIGHT as int),
    ) by {
        // w - 1 + k lies in [w, w + 7], one full wrap.
        assert((w - 1 + k) == 1 * w + (k - 1)) by {
        }
        vstd::arithmetic::div_mod::lemma_fundamental_div_mod_converse_mod(w - 1 + k, w, 1, k - 1);
    }
    lemma_draw_row_rec_pointwise(fb, byte, w - 1, y, 8);
}

/// A fixed grid of binary cells plus the timestamp of the last flush to the
/// display collaborator.
pub struct Screen {
    buffer: Vec<u8>,
    last_display_at_ms: u64,
}

impl View for Screen {
    type V = ScreenView;

    closed spec fn view(&self) -> ScreenView {
        ScreenView { fb: self.buffer@, last_flush_ms: self.last_display_at_ms }
    }
}

impl Screen {
    /// The grid is full-sized and every cell is 0 or 1.
    pub open spec fn wf(&self) -> bool {
        fb_wf(self@.fb)
    }

    /// A fresh screen is all dark.
    pub fn new(now_ms: u64) -> (r: Screen)
        ensures
            r.wf(),
            r@.fb == Seq::new(SCREEN_SIZE as nat, |i: int| 0u8),
            r@.last_flush_ms == now_ms,
    {
        let mut buffer: Vec<u8> = Vec::new();
        let mut k: usize = 0;
        while k < SCREEN_SIZE
            invariant
                k <= SCREEN_SIZE,
                buffer@.len() == k,
                forall|j: int| 0 <= j < k ==> buffer@[j] == 0u8,
            decreases SCREEN_SIZE - k,
        {
            buffer.push(0);
            k += 1;
        }
        let r = Screen { buffer, last_display_at_ms: now_ms };
        proof {
            assert(r@.fb =~= Seq::new(SCREEN_SIZE as nat, |i: int| 0u8));
        }
        r
    }

    /// Sets every cell to 0.
    pub fn clear(&mut self)
        requires
            old(self).wf(),
        ensures
            final(self).wf(),
            final(self)@.fb == Seq::new(SCREEN_SIZE as nat, |i: int| 0u8),
            final(self)@.last_flush_ms == old(self)@.last_flush_ms,
    {
        let mut k: usize = 0;
        while k < SCREEN_SIZE
            invariant
                k <= SCREEN_SIZE,
                self@.fb.len() == SCREEN_SIZE,
                forall|j: int| 0 <= j < k ==> self@.fb[j] == 0u8,
                self@.last_flush_ms == old(self)@.last_flush_ms,
            decreases SCREEN_SIZE - k,
        {
            self.buffer[k] = 0;
            k += 1;
        }
        proof {
            assert(self@.fb =~= Seq::new(SCREEN_SIZE as nat, |i: int| 0u8));
        }
    }

    /// XORs the 8 bits of `byte`, most significant first, into the cells at
    /// `(x, y)` onward; both coordinates wrap. Returns whether any cell
    /// transitioned from set to clear.
    pub fn draw_byte(&mut self, byte: u8, x: usize, y: usize) -> (erased: bool)
        requires
            old(self).wf(),
        ensures
            final(self).wf(),
            final(self)@.fb == draw_row_spec(old(self)@.fb, byte, x as int, y as int).0,
            erased == draw_row_spec(old(self)@.fb, byte, x as int, y as int).1,
            final(self)@.last_flush_ms == old(self)@.last_flush_ms,
    {
        let x_wrapped = x % SCREEN_WIDTH;
        let y_wrapped = y % SCREEN_HEIGHT;
        let mut erased = false;
        let mut k: usize = 0;
        while k < 8
            invariant
                k <= 8,
                x_wrapped == (x as int) % (SCREEN_WIDTH as int),
                y_wrapped == (y as int) % (SCREEN_HEIGHT as int),
                x_wrapped < SCREEN_WIDTH,
                y_wrapped < SCREEN_HEIGHT,
                self@.fb.len() == SCREEN_SIZE,
                forall|i: int| 0 <= i < SCREEN_SIZE ==> self@.fb[i] <= 1,
                self@.fb == draw_row_rec(old(self)@.fb, byte, x as int, y as int, k as nat).0,
                erased == draw_row_rec(old(self)@.fb, byte, x as int, y as int, k as nat).1,
                self@.last_flush_ms == old(self)@.last_flush_ms,
                old(self).wf(),
            decreases 8 - k,
        {
            let col = (x_wrapped + k) % SCREEN_WIDTH;
            let index = y_wrapped * SCREEN_WIDTH + col;
            proof {
                lemma_add_mod_noop(x as int, k as int, SCREEN_WIDTH as int);
                lemma_small_mod(k as nat, SCREEN_WIDTH as nat);
                lemma_add_mod_noop(
                    (x as int) % (SCREEN_WIDTH as int),
                    k as int,
                    SCREEN_WIDTH as int,
                );
                vstd::arithmetic::div_mod::lemma_mod_twice(x as int, SCREEN_WIDTH as int);
                assert(col == (x as int + k) % (SCREEN_WIDTH as int));
                assert(index == row_target(x as int, k as int, y as int));
            }
            let shift: u8 = (7 - k) as u8;
            let bit = (byte >> shift) & 1;
            proof {
                assert((byte >> shift) & 1 <= 1) by (bit_vector);
                assert(bit == bit_at(byte, k as int));
            }
            let previous = self.buffer[index];
            let current = previous ^ bit;
            proof {
                assert(previous <= 1);
                assert(current <= 1 && ((previous == 1 && current == 0) <==> (previous == 1 && bit
                    == 1))) by (bit_vector)
                    requires previous <= 1, bit <= 1, current == (previous ^ bit),
                ;
            }
            self.buffer[index] = current;
            if previous == 1 && current == 0 {
                erased = true;
            }
            k += 1;
        }
        erased
    }

    /// Whether enough real time has elapsed since the last flush for a new
    /// one.
    pub fn can_display(&self, now_ms: u64) -> (r: bool)
        ensures
            r == (elapsed_ms(self@.last_flush_ms, now_ms) > MIN_DISPLAY_INTERVAL_MS),
    {
        crate::clock::elapsed_millis(self.last_display_at_ms, now_ms) > MIN_DISPLAY_INTERVAL_MS
    }

    /// Records a flush to the display collaborator at `now_ms`; the grid
    /// itself is untouched.
    pub fn mark_displayed(&mut self, now_ms: u64)
        requires
            elapsed_ms(old(self)@.last_flush_ms, now_ms) > MIN_DISPLAY_INTERVAL_MS,
        ensures
            final(self)@.fb == old(self)@.fb,
            final(self)@.last_flush_ms == now_ms,
    {
        self.last_display_at_ms = now_ms;
    }

    /// One cell of the grid, 0 or 1.
    pub fn pixel(&self, x: usize, y: usize) -> (r: u8)
        requires
            self.wf(),
            x < SCREEN_WIDTH,
            y < SCREEN_HEIGHT,
        ensures
            r == self@.fb[pixel_index(x as int, y as int)],
            r <= 1,
    {
        self.buffer[y * SCREEN_WIDTH + x]
    }

    /// The full cell grid in row-major order.
    pub fn pixels(&self) -> (r: Vec<u8>)
        requires
            self.wf(),
        ensures
            r@ == self@.fb,
    {
        let mut out: Vec<u8> = Vec::new();
        let mut k: usize = 0;
        while k < SCREEN_SIZE
            invariant
                k <= SCREEN_SIZE,
                self.wf(),
                out@.len() == k,
                forall|j: int| 0 <= j < k ==> out@[j] == self@.fb[j],
            decreases SCREEN_SIZE - k,
        {
            out.push(self.buffer[k]);
            k += 1;
        }
        proof {
            assert(out@ =~= self@.fb);
        }
        out
    }
}

} // verus!
