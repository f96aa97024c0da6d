//! The 64 x 32 monochrome display.
//!
//! Each row is one 64-bit word whose most significant bit is the leftmost
//! pixel. A sprite is a sequence of bytes, one per row, whose most
//! significant bit is the leftmost pixel of that row. Sprites are drawn by
//! exclusive or and wrap around both edges of the display.

use vstd::prelude::*;

verus! {

/// Whether bit `k` of `word` is set, bit 0 being the least significant.
pub open spec fn bit_of_word(word: u64, k: u64) -> bool {
    (word >> k) & 1 == 1
}

/// Whether bit `k` of `byte` is set, bit 0 being the least significant.
spec fn bit_of_byte(byte: u8, k: u8) -> bool {
    (byte >> k) & 1 == 1
}

/// Whether the pixel in column `x` of a display row is set.
pub open spec fn row_pixel(row: u64, x: int) -> bool {
    bit_of_word(row, (63 - x) as u64)
}

/// The value of binary digit `k` of a byte: 1, 2, 4, ... 128 for `k` from 0
/// to 7.
pub open spec fn place_value(k: int) -> int {
    if k <= 0 {
        1
    } else if k == 1 {
        2
    } else if k == 2 {
        4
    } else if k == 3 {
        8
    } else if k == 4 {
        16
    } else if k == 5 {
        32
    } else if k == 6 {
        64
    } else {
        128
    }
}

/// Whether pixel `k` of a sprite row is set, pixel 0 being the leftmost and
/// the most significant binary digit of the byte. A sprite row has 8 pixels;
/// outside them nothing is set.
pub open spec fn sprite_pixel(byte: u8, k: int) -> bool {
    0 <= k < 8 && (byte as int / place_value(7 - k)) % 2 == 1
}

proof fn lemma_bit_of_byte(b: u8, k: u8)
    requires
        k < 8,
    ensures
        bit_of_byte(b, k) == ((b as int / place_value(k as int)) % 2 == 1),
{
    assert(((b >> 0u8) & 1 == 1) == (b % 2 == 1)) by (bit_vector);
    assert(((b >> 1u8) & 1 == 1) == ((b / 2) % 2 == 1)) by (bit_vector);
    assert(((b >> 2u8) & 1 == 1) == ((b / 4) % 2 == 1)) by (bit_vector);
    assert(((b >> 3u8) & 1 == 1) == ((b / 8) % 2 == 1)) by (bit_vector);
    assert(((b >> 4u8) & 1 == 1) == ((b / 16) % 2 == 1)) by (bit_vector);
    assert(((b >> 5u8) & 1 == 1) == ((b / 32) % 2 == 1)) by (bit_vector);
    assert(((b >> 6u8) & 1 == 1) == ((b / 64) % 2 == 1)) by (bit_vector);
    assert(((b >> 7u8) & 1 == 1) == ((b / 128) % 2 == 1)) by (bit_vector);
}

/// Whether a sprite row drawn with its left edge in column `x` covers column
/// `c` with a set pixel. Columns are counted modulo 64.
pub open spec fn sprite_row_covers(byte: u8, x: int, c: int) -> bool {
    sprite_pixel(byte, (c - x) % 64)
}

proof fn lemma_shifted_pixel(b: u8, x: u64, k: u64)
    by (bit_vector)
    requires
        x <= 56,
        k < 8,
    ensures
        bit_of_word((b as u64) << ((56 - x) as u64), (63 - (x + k)) as u64) == bit_of_byte(
            b,
            (7 - k) as u8,
        ),
{
}

proof fn lemma_shifted_blank(b: u8, x: u64, c: u64)
    by (bit_vector)
    requires
        x <= 56,
        c < 64,
        c < x || c >= x + 8,
    ensures
        !bit_of_word((b as u64) << ((56 - x) as u64), (63 - c) as u64),
{
}

proof fn lemma_rotated_pixel_right(b: u8, s: u64, k: u64)
    by (bit_vector)
    requires
        1 <= s <= 7,
        k < 8 - s,
    ensures
        bit_of_word(
            ((b as u64) >> s) | ((b as u64) << ((64 - s) as u64)),
            (7 - s - k) as u64,
        ) == bit_of_byte(b, (7 - k) as u8),
{
}

proof fn lemma_rotated_pixel_left(b: u8, s: u64, k: u64)
    by (bit_vector)
    requires
        1 <= s <= 7,
        8 - s <= k < 8,
    ensures
        bit_of_word(
            ((b as u64) >> s) | ((b as u64) << ((64 - s) as u64)),
            (71 - s - k) as u64,
        ) == bit_of_byte(b, (7 - k) as u8),
{
}

proof fn lemma_rotated_blank(b: u8, s: u64, c: u64)
    by (bit_vector)
    requires
        1 <= s <= 7,
        s <= c < 56 + s,
    ensures
        !bit_of_word(
            ((b as u64) >> s) | ((b as u64) << ((64 - s) as u64)),
            (63 - c) as u64,
        ),
{
}

/// A sprite row shifted to a column where it fits covers the eight columns
/// from there on.
proof fn lemma_shifted_mask(byte: u8, column: int, c: int)
    requires
        0 <= column <= 56,
        0 <= c < 64,
    ensures
        row_pixel((byte as u64) << ((56 - column) as u64), c) == sprite_pixel(byte, c - column),
{
    if column <= c < column + 8 {
        lemma_shifted_pixel(byte, column as u64, (c - column) as u64);
        lemma_bit_of_byte(byte, (7 - (c - column)) as u8);
    } else {
        lemma_shifted_blank(byte, column as u64, c as u64);
    }
}

/// A sprite row rotated to a column where it passes the right edge covers
/// the columns up to the edge and then those from the left edge on.
proof fn lemma_rotated_mask(byte: u8, column: int, c: int)
    requires
        56 < column < 64,
        0 <= c < 64,
    ensures
        row_pixel(
            ((byte as u64) >> ((column - 56) as u64)) | ((byte as u64) << ((120 - column) as u64)),
            c,
        ) == sprite_pixel(byte, if c >= column { c - column } else { c + 64 - column }),
{
    let shift = (column - 56) as u64;
    assert((120 - column) as u64 == (64 - shift) as u64);
    if c >= column {
        lemma_rotated_pixel_right(byte, shift, (c - column) as u64);
        lemma_bit_of_byte(byte, (7 - (c - column)) as u8);
    } else if c < shift {
        lemma_rotated_pixel_left(byte, shift, (c + 64 - column) as u64);
        lemma_bit_of_byte(byte, (7 - (c + 64 - column)) as u8);
    } else {
        lemma_rotated_blank(byte, shift, c as u64);
    }
}

/// The distance from column `x` to column `c`, going right and around the
/// edge.
proof fn lemma_column_distance(x: int, c: int)
    requires
        0 <= x,
        0 <= c < 64,
    ensures
        (c - x) % 64 == if c >= x % 64 { c - x % 64 } else { c + 64 - x % 64 },
{
}

/// The display row that holds `sprite_row` with its left edge in column
/// `x % 64` and nothing else. Pixels that pass the right edge come back in
/// at the left edge.
pub fn get_mask(sprite_row: u8, x: usize) -> (mask: u64)
    ensures
        forall|c: int|
            0 <= c < 64 ==> row_pixel(mask, c) == sprite_row_covers(sprite_row, x as int, c),
{
    let column: usize = x % 64;
    let row: u64 = sprite_row as u64;
    let mask: u64 = if column > 56 {
        let shift: usize = column - 56;
        (row >> shift) | (row << (64 - shift))
    } else {
        row << (56 - column)
    };
    proof {
        assert forall|c: int| 0 <= c < 64 implies row_pixel(mask, c) == sprite_row_covers(
            sprite_row,
            x as int,
            c,
        ) by {
            lemma_column_distance(x as int, c);
            if column > 56 {
                lemma_rotated_mask(sprite_row, column as int, c);
            } else {
                lemma_shifted_mask(sprite_row, column as int, c);
            }
        }
    }
    mask
}

/// The display with no pixel set.
pub open spec fn blank() -> Seq<Seq<bool>> {
    Seq::new(32, |r: int| Seq::new(64, |c: int| false))
}

/// Whether `sprite`, drawn with its top left corner at `(x, y)`, covers the
/// pixel in column `c` of row `r` with a set pixel. Row `i` of the sprite
/// lands on display row `(y + i) % 32`, and of its eight pixels, pixel `k`
/// lands in column `(x + k) % 64`. This is for a sprite of at most 32 rows,
/// of which no two land on the same display row.
pub open spec fn sprite_covers(sprite: Seq<u8>, x: int, y: int, c: int, r: int) -> bool {
    let i = (r - y) % 32;
    i < sprite.len() && sprite_row_covers(sprite[i], x, c)
}

/// The display after `sprite` has been drawn onto `pixels` at `(x, y)`. A
/// sprite of at most 32 rows flips every pixel that it covers and keeps the
/// others. A longer one is drawn 32 rows at a time, each part on top of what
/// the parts before it have left.
pub open spec fn drawn(pixels: Seq<Seq<bool>>, sprite: Seq<u8>, x: int, y: int) -> Seq<Seq<bool>>
    decreases sprite.len(),
{
    if sprite.len() <= 32 {
        Seq::new(
            32,
            |r: int| Seq::new(64, |c: int| pixels[r][c] != sprite_covers(sprite, x, y, c, r)),
        )
    } else {
        drawn(drawn(pixels, sprite.take(32), x, y), sprite.skip(32), x, y)
    }
}

/// Whether drawing `sprite` onto `pixels` at `(x, y)` switches a set pixel
/// off. A sprite of at most 32 rows does so when it covers a pixel that is
/// set. A longer one is drawn 32 rows at a time, and each part is held
/// against the display as the parts before it have left it.
pub open spec fn collides(pixels: Seq<Seq<bool>>, sprite: Seq<u8>, x: int, y: int) -> bool
    decreases sprite.len(),
{
    if sprite.len() <= 32 {
        exists|c: int, r: int|
            0 <= c < 64 && 0 <= r < 32 && #[trigger] pixels[r][c] && sprite_covers(
                sprite,
                x,
                y,
                c,
                r,
            )
    } else {
        collides(pixels, sprite.take(32), x, y) || collides(
            drawn(pixels, sprite.take(32), x, y),
            sprite.skip(32),
            x,
            y,
        )
    }
}

/// Whether drawing `sprite` row by row flips the pixel in column `c` of row
/// `r`: a pixel that several rows land on flips once for each of them.
spec fn toggles(sprite: Seq<u8>, x: int, y: int, c: int, r: int) -> bool
    decreases sprite.len(),
{
    if sprite.len() == 0 {
        false
    } else {
        let last = sprite.len() - 1;
        toggles(sprite.drop_last(), x, y, c, r) != ((y + last) % 32 == r && sprite_row_covers(
            sprite[last],
            x,
            c,
        ))
    }
}

/// The display after the rows of `sprite` have been drawn one by one.
spec fn drawn_by_rows(pixels: Seq<Seq<bool>>, sprite: Seq<u8>, x: int, y: int) -> Seq<Seq<bool>> {
    Seq::new(32, |r: int| Seq::new(64, |c: int| pixels[r][c] != toggles(sprite, x, y, c, r)))
}

/// Whether a sprite row drawn at column `x` of row `r` falls on a pixel of
/// `pixels` that is set.
spec fn row_collides(pixels: Seq<Seq<bool>>, byte: u8, x: int, r: int) -> bool {
    exists|c: int| 0 <= c < 64 && #[trigger] pixels[r][c] && sprite_row_covers(byte, x, c)
}

/// Whether one of the rows of `sprite`, drawn one by one, falls on a pixel
/// that is set when its turn comes.
spec fn collides_by_rows(pixels: Seq<Seq<bool>>, sprite: Seq<u8>, x: int, y: int) -> bool
    decreases sprite.len(),
{
    if sprite.len() == 0 {
        false
    } else {
        let last = sprite.len() - 1;
        let rest = sprite.drop_last();
        collides_by_rows(pixels, rest, x, y) || row_collides(
            drawn_by_rows(pixels, rest, x, y),
            sprite[last],
            x,
            (y + last) % 32,
        )
    }
}

/// A sprite of at most 32 rows toggles exactly the pixels that it covers.
proof fn lemma_toggles_short(sprite: Seq<u8>, x: int, y: int, c: int, r: int)
    requires
        sprite.len() <= 32,
        0 <= r < 32,
    ensures
        toggles(sprite, x, y, c, r) == sprite_covers(sprite, x, y, c, r),
    decreases sprite.len(),
{
    if sprite.len() > 0 {
        let last = sprite.len() - 1;
        let rest = sprite.drop_last();
        lemma_toggles_short(rest, x, y, c, r);
        let i = (r - y) % 32;
        if (y + last) % 32 == r {
            assert(i == last);
        } else {
            assert(i != last);
            if i < last {
                assert(rest[i] == sprite[i]);
            }
        }
    }
}

/// Drawing two sprites one below the other toggles what either of them
/// toggles alone, but not what both do.
proof fn lemma_toggles_concat(a: Seq<u8>, b: Seq<u8>, x: int, y: int, c: int, r: int)
    ensures
        toggles(a + b, x, y, c, r) == (toggles(a, x, y, c, r) != toggles(b, x, y + a.len(), c, r)),
    decreases b.len(),
{
    if b.len() == 0 {
        assert(a + b =~= a);
    } else {
        let whole = a + b;
        assert(whole.drop_last() =~= a + b.drop_last());
        assert(whole[whole.len() - 1] == b[b.len() - 1]);
        lemma_toggles_concat(a, b.drop_last(), x, y, c, r);
        assert(y + (whole.len() - 1) == (y + a.len()) + (b.len() - 1));
    }
}

/// A sprite drawn 32 rows further down toggles the same pixels.
proof fn lemma_toggles_shift(sprite: Seq<u8>, x: int, y: int, c: int, r: int)
    ensures
        toggles(sprite, x, y + 32, c, r) == toggles(sprite, x, y, c, r),
    decreases sprite.len(),
{
    if sprite.len() > 0 {
        lemma_toggles_shift(sprite.drop_last(), x, y, c, r);
        let last = sprite.len() - 1;
        assert((y + 32 + last) % 32 == (y + last) % 32);
    }
}

/// Drawing a sprite flips exactly the pixels that its rows, drawn one by
/// one, toggle.
proof fn lemma_drawn_by_rows(pixels: Seq<Seq<bool>>, sprite: Seq<u8>, x: int, y: int)
    ensures
        drawn(pixels, sprite, x, y) == drawn_by_rows(pixels, sprite, x, y),
    decreases sprite.len(),
{
    if sprite.len() <= 32 {
        assert forall|r: int, c: int| 0 <= r < 32 && 0 <= c < 64 implies toggles(
            sprite,
            x,
            y,
            c,
            r,
        ) == sprite_covers(sprite, x, y, c, r) by {
            lemma_toggles_short(sprite, x, y, c, r);
        }
        assert(drawn(pixels, sprite, x, y) =~~= drawn_by_rows(pixels, sprite, x, y));
    } else {
        let head = sprite.take(32);
        let tail = sprite.skip(32);
        let first = drawn(pixels, head, x, y);
        lemma_drawn_by_rows(pixels, head, x, y);
        lemma_drawn_by_rows(first, tail, x, y);
        assert(head + tail =~= sprite);
        assert forall|r: int, c: int| 0 <= r < 32 && 0 <= c < 64 implies toggles(
            sprite,
            x,
            y,
            c,
            r,
        ) == (toggles(head, x, y, c, r) != toggles(tail, x, y, c, r)) by {
            lemma_toggles_concat(head, tail, x, y, c, r);
            lemma_toggles_shift(tail, x, y, c, r);
        }
        assert(drawn_by_rows(first, tail, x, y) =~~= drawn_by_rows(pixels, sprite, x, y));
    }
}

/// A sprite of at most 32 rows, drawn row by row, collides exactly when it
/// covers a pixel that is set.
proof fn lemma_collides_short(pixels: Seq<Seq<bool>>, sprite: Seq<u8>, x: int, y: int)
    requires
        sprite.len() <= 32,
    ensures
        collides_by_rows(pixels, sprite, x, y) == collides(pixels, sprite, x, y),
    decreases sprite.len(),
{
    if sprite.len() > 0 {
        let last = sprite.len() - 1;
        let rest = sprite.drop_last();
        let row = (y + last) % 32;
        let under = drawn_by_rows(pixels, rest, x, y);
        lemma_collides_short(pixels, rest, x, y);
        // None of the rows before the last lands on the row of the last.
        assert forall|c: int| 0 <= c < 64 implies #[trigger] under[row][c] == pixels[row][c] by {
            lemma_toggles_short(rest, x, y, c, row);
            assert((row - y) % 32 == last);
        }
        // On its own row the sprite is its last row; elsewhere it is the rest.
        assert forall|c: int, r: int| 0 <= c < 64 && 0 <= r < 32 implies sprite_covers(
            sprite,
            x,
            y,
            c,
            r,
        ) == (if r == row {
            sprite_row_covers(sprite[last], x, c)
        } else {
            sprite_covers(rest, x, y, c, r)
        }) by {
            let i = (r - y) % 32;
            if r == row {
                assert(i == last);
            } else {
                assert(i != last);
                if i < last {
                    assert(rest[i] == sprite[i]);
                }
            }
        }
        if collides_by_rows(pixels, sprite, x, y) {
            if collides(pixels, rest, x, y) {
                let (c, r) = choose|c: int, r: int|
                    0 <= c < 64 && 0 <= r < 32 && #[trigger] pixels[r][c] && sprite_covers(
                        rest,
                        x,
                        y,
                        c,
                        r,
                    );
                assert((row - y) % 32 == last);
                assert(r != row);
                assert(pixels[r][c] && sprite_covers(sprite, x, y, c, r));
            } else {
                let c = choose|c: int|
                    0 <= c < 64 && #[trigger] under[row][c] && sprite_row_covers(
                        sprite[last],
                        x,
                        c,
                    );
                assert(pixels[row][c] && sprite_covers(sprite, x, y, c, row));
            }
            assert(collides(pixels, sprite, x, y));
        }
        if collides(pixels, sprite, x, y) {
            let (c, r) = choose|c: int, r: int|
                0 <= c < 64 && 0 <= r < 32 && #[trigger] pixels[r][c] && sprite_covers(
                    sprite,
                    x,
                    y,
                    c,
                    r,
                );
            if r == row {
                assert(under[row][c] && sprite_row_covers(sprite[last], x, c));
                assert(row_collides(under, sprite[last], x, row));
            } else {
                assert(pixels[r][c] && sprite_covers(rest, x, y, c, r));
                assert(collides(pixels, rest, x, y));
            }
        }
    }
}

/// Two sprites drawn one below the other collide when the first does, or
/// when the second does with what the first has left.
proof fn lemma_collides_concat(pixels: Seq<Seq<bool>>, a: Seq<u8>, b: Seq<u8>, x: int, y: int)
    ensures
        collides_by_rows(pixels, a + b, x, y) == (collides_by_rows(pixels, a, x, y)
            || collides_by_rows(drawn_by_rows(pixels, a, x, y), b, x, y + a.len())),
    decreases b.len(),
{
    if b.len() == 0 {
        assert(a + b =~= a);
    } else {
        let whole = a + b;
        let short = b.drop_last();
        let under = drawn_by_rows(pixels, a, x, y);
        assert(whole.drop_last() =~= a + short);
        assert(whole[whole.len() - 1] == b[b.len() - 1]);
        assert(y + (whole.len() - 1) == (y + a.len()) + (b.len() - 1));
        lemma_collides_concat(pixels, a, short, x, y);
        assert forall|r: int, c: int| 0 <= r < 32 && 0 <= c < 64 implies toggles(
            a + short,
            x,
            y,
            c,
            r,
        ) == (toggles(a, x, y, c, r) != toggles(short, x, y + a.len(), c, r)) by {
            lemma_toggles_concat(a, short, x, y, c, r);
        }
        assert(drawn_by_rows(pixels, a + short, x, y) =~~= drawn_by_rows(
            under,
            short,
            x,
            y + a.len(),
        ));
    }
}

/// A sprite drawn 32 rows further down collides on the same displays.
proof fn lemma_collides_shift(pixels: Seq<Seq<bool>>, sprite: Seq<u8>, x: int, y: int)
    ensures
        collides_by_rows(pixels, sprite, x, y + 32) == collides_by_rows(pixels, sprite, x, y),
    decreases sprite.len(),
{
    if sprite.len() > 0 {
        let rest = sprite.drop_last();
        let last = sprite.len() - 1;
        lemma_collides_shift(pixels, rest, x, y);
        assert((y + 32 + last) % 32 == (y + last) % 32);
        assert forall|r: int, c: int| 0 <= r < 32 && 0 <= c < 64 implies toggles(
            rest,
            x,
            y + 32,
            c,
            r,
        ) == toggles(rest, x, y, c, r) by {
            lemma_toggles_shift(rest, x, y, c, r);
        }
        assert(drawn_by_rows(pixels, rest, x, y + 32) =~~= drawn_by_rows(pixels, rest, x, y));
    }
}

/// A sprite collides exactly when one of its rows, drawn one by one, falls
/// on a pixel that is set when its turn comes.
proof fn lemma_collides_by_rows(pixels: Seq<Seq<bool>>, sprite: Seq<u8>, x: int, y: int)
    ensures
        collides(pixels, sprite, x, y) == collides_by_rows(pixels, sprite, x, y),
    decreases sprite.len(),
{
    if sprite.len() <= 32 {
        lemma_collides_short(pixels, sprite, x, y);
    } else {
        let head = sprite.take(32);
        let tail = sprite.skip(32);
        assert(head + tail =~= sprite);
        lemma_collides_by_rows(pixels, head, x, y);
        lemma_drawn_by_rows(pixels, head, x, y);
        lemma_collides_by_rows(drawn(pixels, head, x, y), tail, x, y);
        lemma_collides_concat(pixels, head, tail, x, y);
        lemma_collides_shift(drawn_by_rows(pixels, head, x, y), tail, x, y);
    }
}

/// Drawing the same sprite twice at the same place leaves the display as it
/// was.
pub proof fn lemma_draw_twice_restores(screen: Screen, sprite: Seq<u8>, x: int, y: int)
    ensures
        drawn(drawn(screen@, sprite, x, y), sprite, x, y) == screen@,
{
    let once = drawn(screen@, sprite, x, y);
    lemma_drawn_by_rows(screen@, sprite, x, y);
    lemma_drawn_by_rows(once, sprite, x, y);
    assert(drawn_by_rows(drawn_by_rows(screen@, sprite, x, y), sprite, x, y) =~~= screen@);
}

proof fn lemma_zero_has_no_bit(k: u64)
    by (bit_vector)
    requires
        k < 64,
    ensures
        !bit_of_word(0, k),
{
}

proof fn lemma_xor_bit(a: u64, b: u64, k: u64)
    by (bit_vector)
    requires
        k < 64,
    ensures
        bit_of_word(a ^ b, k) == (bit_of_word(a, k) != bit_of_word(b, k)),
{
}

proof fn lemma_and_bit(a: u64, b: u64, k: u64)
    by (bit_vector)
    requires
        k < 64,
    ensures
        bit_of_word(a & b, k) == (bit_of_word(a, k) && bit_of_word(b, k)),
{
}

proof fn lemma_clear_next_bit(a: u64, n: u64)
    by (bit_vector)
    requires
        n < 63,
        (a >> n) << n == a,
        !bit_of_word(a, n),
    ensures
        (a >> ((n + 1) as u64)) << ((n + 1) as u64) == a,
{
}

proof fn lemma_clear_first_bit(a: u64)
    by (bit_vector)
    ensures
        (a >> 0) << 0 == a,
{
}

proof fn lemma_clear_last_bit(a: u64)
    by (bit_vector)
    requires
        (a >> 63) << 63 == a,
        !bit_of_word(a, 63),
    ensures
        a == 0,
{
}

proof fn lemma_low_bits_clear(a: u64, n: u64)
    requires
        n <= 63,
        forall|k: u64| k < n ==> !bit_of_word(a, k),
    ensures
        (a >> n) << n == a,
    decreases n,
{
    if n == 0 {
        lemma_clear_first_bit(a);
    } else {
        let m = (n - 1) as u64;
        lemma_low_bits_clear(a, m);
        lemma_clear_next_bit(a, m);
    }
}

proof fn lemma_nonzero_has_bit(a: u64)
    requires
        a != 0,
    ensures
        exists|k: u64| k < 64 && bit_of_word(a, k),
{
    if forall|k: u64| k < 64 ==> !bit_of_word(a, k) {
        lemma_low_bits_clear(a, 63);
        lemma_clear_last_bit(a);
    }
}

/// A display row is determined by its 64 pixels: two row words with the same
/// pixels are the same word.
pub proof fn lemma_row_by_pixels(a: u64, b: u64)
    requires
        forall|c: int| 0 <= c < 64 ==> row_pixel(a, c) == row_pixel(b, c),
    ensures
        a == b,
{
    if a != b {
        assert(a ^ b != 0) by (bit_vector)
            requires
                a != b,
        ;
        lemma_nonzero_has_bit(a ^ b);
        let k = choose|k: u64| k < 64 && bit_of_word(a ^ b, k);
        lemma_xor_bit(a, b, k);
        assert(row_pixel(a, 63 - k) == row_pixel(b, 63 - k));
    }
}

proof fn lemma_bit_is_nonzero(a: u64, k: u64)
    by (bit_vector)
    requires
        k < 64,
        bit_of_word(a, k),
    ensures
        a != 0,
{
}

/// The display that 32 row words stand for: pixel `c` of row `r` is bit
/// `63 - c` of word `r`.
pub open spec fn grid(words: Seq<u64>) -> Seq<Seq<bool>> {
    Seq::new(32, |r: int| Seq::new(64, |c: int| row_pixel(words[r], c)))
}

proof fn lemma_zero_words_are_blank(words: Seq<u64>)
    requires
        words.len() == 32,
        forall|r: int| 0 <= r < 32 ==> words[r] == 0,
    ensures
        grid(words) == blank(),
{
    assert forall|r: int, c: int| 0 <= r < 32 && 0 <= c < 64 implies !(#[trigger] row_pixel(
        words[r],
        c,
    )) by {
        lemma_zero_has_no_bit((63 - c) as u64);
    }
    assert(grid(words) =~~= blank());
}

/// Exclusive or of a mask into one row word flips the pixels under the mask
/// in that row and no others.
proof fn lemma_xor_row(words: Seq<u64>, row: int, mask: u64, byte: u8, x: int)
    requires
        words.len() == 32,
        0 <= row < 32,
        forall|c: int| 0 <= c < 64 ==> row_pixel(mask, c) == sprite_row_covers(byte, x, c),
    ensures
        forall|r: int, c: int|
            0 <= r < 32 && 0 <= c < 64 ==> #[trigger] grid(
                words.update(row, words[row] ^ mask),
            )[r][c] == (grid(words)[r][c] != (r == row && sprite_row_covers(byte, x, c))),
{
    let after = words.update(row, words[row] ^ mask);
    assert forall|r: int, c: int| 0 <= r < 32 && 0 <= c < 64 implies #[trigger] grid(after)[r][c]
        == (grid(words)[r][c] != (r == row && sprite_row_covers(byte, x, c))) by {
        assert(grid(after)[r][c] == row_pixel(after[r], c));
        assert(grid(words)[r][c] == row_pixel(words[r], c));
        if r == row {
            lemma_xor_bit(words[row], mask, (63 - c) as u64);
            assert(row_pixel(mask, c) == sprite_row_covers(byte, x, c));
        }
    }
}

/// A row word and a mask share a bit exactly when the sprite row falls on a
/// set pixel of that row.
proof fn lemma_and_row(words: Seq<u64>, row: int, mask: u64, byte: u8, x: int)
    requires
        words.len() == 32,
        0 <= row < 32,
        forall|c: int| 0 <= c < 64 ==> row_pixel(mask, c) == sprite_row_covers(byte, x, c),
    ensures
        (words[row] & mask != 0) == row_collides(grid(words), byte, x, row),
{
    let word = words[row];
    let matched = word & mask;
    if matched != 0 {
        lemma_nonzero_has_bit(matched);
        let k = choose|k: u64| k < 64 && bit_of_word(matched, k);
        lemma_and_bit(word, mask, k);
        let c = 63 - k;
        assert(grid(words)[row][c] == row_pixel(word, c));
        assert(row_pixel(mask, c) == sprite_row_covers(byte, x, c));
        assert(row_collides(grid(words), byte, x, row));
    }
    if row_collides(grid(words), byte, x, row) {
        let c = choose|c: int|
            0 <= c < 64 && #[trigger] grid(words)[row][c] && sprite_row_covers(byte, x, c);
        assert(grid(words)[row][c] == row_pixel(word, c));
        assert(row_pixel(mask, c) == sprite_row_covers(byte, x, c));
        lemma_and_bit(word, mask, (63 - c) as u64);
        lemma_bit_is_nonzero(matched, (63 - c) as u64);
    }
}

/// Drawing one more row of a sprite flips the pixels that this row covers.
proof fn lemma_draw_next_row(
    pixels: Seq<Seq<bool>>,
    sprite: Seq<u8>,
    i: int,
    x: int,
    y: int,
    next: Seq<Seq<bool>>,
)
    requires
        0 <= i < sprite.len(),
        next.len() == 32,
        forall|r: int| 0 <= r < 32 ==> (#[trigger] next[r]).len() == 64,
        forall|r: int, c: int|
            0 <= r < 32 && 0 <= c < 64 ==> #[trigger] next[r][c] == (drawn_by_rows(
                pixels,
                sprite.take(i),
                x,
                y,
            )[r][c] != (r == (y + i) % 32 && sprite_row_covers(sprite[i], x, c))),
    ensures
        next == drawn_by_rows(pixels, sprite.take(i + 1), x, y),
        collides_by_rows(pixels, sprite.take(i + 1), x, y) == (collides_by_rows(
            pixels,
            sprite.take(i),
            x,
            y,
        ) || row_collides(
            drawn_by_rows(pixels, sprite.take(i), x, y),
            sprite[i],
            x,
            (y + i) % 32,
        )),
{
    let part = sprite.take(i);
    let more = sprite.take(i + 1);
    assert(more.drop_last() =~= part);
    assert(more[i] == sprite[i]);
    assert(more.len() - 1 == i);
    assert forall|r: int, c: int| 0 <= r < 32 && 0 <= c < 64 implies next[r][c] == drawn_by_rows(
        pixels,
        more,
        x,
        y,
    )[r][c] by {
        assert(toggles(more, x, y, c, r) == (toggles(part, x, y, c, r) != ((y + i) % 32 == r
            && sprite_row_covers(sprite[i], x, c))));
    }
    assert(next =~~= drawn_by_rows(pixels, more, x, y));
}

/// One step of drawing: exclusive or of the mask of sprite row `i` into its
/// row word draws that row, and the word and the mask share a bit exactly
/// when the row collides.
proof fn lemma_draw_step(
    before: Seq<Seq<bool>>,
    sprite: Seq<u8>,
    i: int,
    x: int,
    y: int,
    words: Seq<u64>,
    mask: u64,
)
    requires
        0 <= i < sprite.len(),
        words.len() == 32,
        grid(words) == drawn_by_rows(before, sprite.take(i), x, y),
        forall|c: int| 0 <= c < 64 ==> row_pixel(mask, c) == sprite_row_covers(sprite[i], x, c),
    ensures
        grid(words.update((y + i) % 32, words[(y + i) % 32] ^ mask)) == drawn_by_rows(
            before,
            sprite.take(i + 1),
            x,
            y,
        ),
        collides_by_rows(before, sprite.take(i + 1), x, y) == (collides_by_rows(
            before,
            sprite.take(i),
            x,
            y,
        ) || (words[(y + i) % 32] & mask != 0)),
{
    let row = (y + i) % 32;
    lemma_and_row(words, row, mask, sprite[i], x);
    lemma_xor_row(words, row, mask, sprite[i], x);
    let next = grid(words.update(row, words[row] ^ mask));
    lemma_draw_next_row(before, sprite, i, x, y, next);
}

/// The display row of sprite row `i` can be had from `y % 32` and `i % 32`.
proof fn lemma_row_index(y: int, i: int)
    requires
        0 <= y,
        0 <= i,
    ensures
        (y % 32 + i % 32) % 32 == (y + i) % 32,
{
}

/// 64 x 32 monochrome display. (0, 0) is the top left pixel and (63, 31) is
/// the bottom right pixel. Bit `63 - x` of `pixels[y]` is the pixel in column
/// `x` of row `y`.
pub struct Screen {
    pub pixels: [u64; 32],
}

impl View for Screen {
    type V = Seq<Seq<bool>>;

    /// The display as 32 rows of 64 pixels: `self@[y][x]` is the pixel in
    /// column `x` of row `y`.
    open spec fn view(&self) -> Seq<Seq<bool>> {
        grid(self.pixels@)
    }
}

impl Screen {
    /// A blank screen.
    pub fn new() -> (screen: Screen)
        ensures
            screen@ == blank(),
    {
        let screen = Screen { pixels: [0;32] };
        proof {
            lemma_zero_words_are_blank(screen.pixels@);
        }
        screen
    }

    /// Unsets all pixels on the screen.
    pub fn clear(&mut self)
        ensures
            final(self)@ == blank(),
    {
        let mut i: usize = 0;
        while i < 32
            invariant
                i <= 32,
                forall|r: int| 0 <= r < i ==> self.pixels@[r] == 0,
            decreases 32 - i,
        {
            self.pixels[i] = 0;
            i += 1;
        }
        proof {
            lemma_zero_words_are_blank(self.pixels@);
        }
    }

    /// Whether the pixel in column `x` of row `y` is set.
    pub fn get_pixel(&self, x: usize, y: usize) -> (set: bool)
        requires
            x < 64,
            y < 32,
        ensures
            set == self@[y as int][x as int],
    {
        ((self.pixels[y] >> (63 - x)) & 1) == 1
    }

    /// Draws `sprite` with its top left corner at `(x % 64, y % 32)` by
    /// exclusive or, wrapping around both edges of the display. Returns
    /// whether a pixel that was set has been switched off.
    pub fn draw_sprite(&mut self, x: usize, y: usize, sprite: &[u8]) -> (collision: bool)
        ensures
            final(self)@ == drawn(old(self)@, sprite@, x as int, y as int),
            collision == collides(old(self)@, sprite@, x as int, y as int),
    {
        let ghost before = self@;
        let top: usize = y % 32;
        let mut collision = false;
        let mut i: usize = 0;
        proof {
            assert(sprite@.take(0).len() == 0);
            assert(self@ =~~= drawn_by_rows(before, sprite@.take(0), x as int, y as int));
        }
        while i < sprite.len()
            invariant
                i <= sprite@.len(),
                top == y % 32,
                self@ == drawn_by_rows(before, sprite@.take(i as int), x as int, y as int),
                collision == collides_by_rows(before, sprite@.take(i as int), x as int, y as int),
            decreases sprite@.len() - i,
        {
            let row: usize = (top + i % 32) % 32;
            let mask = get_mask(sprite[i], x);
            proof {
                lemma_row_index(y as int, i as int);
                lemma_draw_step(before, sprite@, i as int, x as int, y as int, self.pixels@, mask);
            }
            let matched = self.pixels[row] & mask;
            collision = collision || matched != 0;
            self.pixels[row] = self.pixels[row] ^ mask;
            i += 1;
        }
        proof {
            assert(sprite@.take(i as int) =~= sprite@);
            lemma_drawn_by_rows(before, sprite@, x as int, y as int);
            lemma_collides_by_rows(before, sprite@, x as int, y as int);
        }
        collision
    }
}

} // verus!
