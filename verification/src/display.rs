//! The 64x32 monochrome framebuffer.

use vstd::prelude::*;

verus! {

/// Number of pixel columns.
pub const SCREEN_WIDTH: usize = 64;

/// Number of pixel rows.
pub const SCREEN_HEIGHT: usize = 32;

/// The pixel plane, stored row by row, one byte per pixel.
pub struct Display {
    screen: [u8; 2048],
}

/// Position of pixel `(x, y)` in the row-major plane.
pub open spec fn cell(x: int, y: int) -> int {
    y * 64 + x
}

/// Whether bit `j` of a sprite row is set; bit 0 is the leftmost column.
pub open spec fn sprite_bit(row: u8, j: int) -> bool {
    (row >> ((7 - j) as u8)) & 1u8 == 1u8
}

/// Whether `row`, drawn as row `i` of a sprite placed at `(x, y)`, flips
/// the pixel at position `c`. Coordinates wrap at the edges of the plane.
pub open spec fn row_flips(x: int, y: int, i: int, row: u8, c: int) -> bool {
    let j = (c % 64 - x) % 64;
    &&& c / 64 == (y + i) % 32
    &&& j < 8
    &&& sprite_bit(row, j)
}

/// Whether drawing `sprite` at `(x, y)` leaves the pixel at position `c`
/// flipped: the pixel is flipped once for every set bit that lands on it.
pub open spec fn flips(x: int, y: int, sprite: Seq<u8>, c: int) -> bool
    decreases sprite.len(),
{
    if sprite.len() == 0 {
        false
    } else {
        flips(x, y, sprite.drop_last(), c) != row_flips(
            x,
            y,
            sprite.len() - 1,
            sprite.last(),
            c,
        )
    }
}

/// The plane after `sprite` has been drawn onto `screen` at `(x, y)`.
pub open spec fn drawn(screen: Seq<bool>, x: int, y: int, sprite: Seq<u8>) -> Seq<bool> {
    Seq::new(screen.len(), |c: int| screen[c] != flips(x, y, sprite, c))
}

/// Whether `row`, drawn as row `i` of a sprite placed at `(x, y)`, turns
/// off a pixel that is lit in `screen`.
pub open spec fn row_collides(screen: Seq<bool>, x: int, y: int, i: int, row: u8) -> bool {
    exists|c: int| 0 <= c < 2048 && screen[c] && #[trigger] row_flips(x, y, i, row, c)
}

/// Whether one of the first `width` bits of `row`, drawn as row `i` of a
/// sprite placed at `(x, y)`, turns off a pixel that is lit in `screen`.
spec fn row_collides_within(screen: Seq<bool>, x: int, y: int, i: int, row: u8, width: int) -> bool {
    exists|c: int|
        0 <= c < 2048 && screen[c] && #[trigger] row_flips(x, y, i, row, c) && (c % 64 - x) % 64
            < width
}

/// Whether drawing `sprite` at `(x, y)`, row after row, turns off a lit
/// pixel at any moment.
pub open spec fn collides(screen: Seq<bool>, x: int, y: int, sprite: Seq<u8>) -> bool
    decreases sprite.len(),
{
    if sprite.len() == 0 {
        false
    } else {
        let rest = sprite.drop_last();
        collides(screen, x, y, rest) || row_collides(
            drawn(screen, x, y, rest),
            x,
            y,
            sprite.len() - 1,
            sprite.last(),
        )
    }
}

/// A row flips exactly the pixels that its set bits land on, where bit `j`
/// of row `i` lands in column `(x + j) mod 64` of row `(y + i) mod 32`.
pub proof fn lemma_row_flips_where_bits_land(x: int, y: int, i: int, row: u8, c: int)
    requires
        0 <= c < 2048,
    ensures
        row_flips(x, y, i, row, c) <==> exists|j: int|
            0 <= j < 8 && #[trigger] sprite_bit(row, j) && c == cell((x + j) % 64, (y + i) % 32),
{
    if row_flips(x, y, i, row, c) {
        let j = (c % 64 - x) % 64;
        assert((x + j) % 64 == c % 64);
        assert(sprite_bit(row, j) && c == cell((x + j) % 64, (y + i) % 32));
    }
    if exists|j: int|
        0 <= j < 8 && #[trigger] sprite_bit(row, j) && c == cell((x + j) % 64, (y + i) % 32) {
        let j = choose|j: int|
            0 <= j < 8 && #[trigger] sprite_bit(row, j) && c == cell((x + j) % 64, (y + i) % 32);
        assert(c % 64 == (x + j) % 64);
        assert((c % 64 - x) % 64 == j);
    }
}

/// A pixel that no row of the sprite flips is left as it was.
proof fn lemma_no_row_no_flip(x: int, y: int, sprite: Seq<u8>, c: int)
    requires
        forall|i: int| 0 <= i < sprite.len() ==> !row_flips(x, y, i, #[trigger] sprite[i], c),
    ensures
        !flips(x, y, sprite, c),
    decreases sprite.len(),
{
    if sprite.len() > 0 {
        let rest = sprite.drop_last();
        assert forall|i: int| 0 <= i < rest.len() implies !row_flips(
            x,
            y,
            i,
            #[trigger] rest[i],
            c,
        ) by {
            assert(rest[i] == sprite[i]);
        }
        lemma_no_row_no_flip(x, y, rest, c);
        assert(!row_flips(x, y, sprite.len() - 1, sprite[sprite.len() - 1], c));
    }
}

/// A sprite collides as soon as one of its rows flips a pixel that was lit
/// before the draw.
proof fn lemma_flip_of_lit_collides(screen: Seq<bool>, x: int, y: int, sprite: Seq<u8>, c: int)
    requires
        screen.len() == 2048,
        0 <= c < 2048,
        screen[c],
        exists|i: int| 0 <= i < sprite.len() && row_flips(x, y, i, #[trigger] sprite[i], c),
    ensures
        collides(screen, x, y, sprite),
    decreases sprite.len(),
{
    let rest = sprite.drop_last();
    if exists|i: int| 0 <= i < rest.len() && row_flips(x, y, i, #[trigger] rest[i], c) {
        lemma_flip_of_lit_collides(screen, x, y, rest, c);
    } else {
        let i = choose|i: int| 0 <= i < sprite.len() && row_flips(x, y, i, #[trigger] sprite[i], c);
        if i < rest.len() {
            assert(rest[i] == sprite[i]);
            assert(false);
        }
        lemma_no_row_no_flip(x, y, rest, c);
        assert(drawn(screen, x, y, rest)[c]);
        assert(row_flips(x, y, sprite.len() - 1, sprite.last(), c));
    }
}

/// Drawing the same sprite twice at the same place restores every pixel,
/// and the second draw reports a collision whenever the first draw lit a
/// pixel that was off.
pub proof fn lemma_draw_twice(screen: Seq<bool>, x: int, y: int, sprite: Seq<u8>)
    requires
        screen.len() == 2048,
    ensures
        drawn(drawn(screen, x, y, sprite), x, y, sprite) == screen,
        (exists|c: int| 0 <= c < 2048 && !screen[c] && drawn(screen, x, y, sprite)[c]) ==> collides(
            drawn(screen, x, y, sprite),
            x,
            y,
            sprite,
        ),
{
    let once = drawn(screen, x, y, sprite);
    assert(drawn(once, x, y, sprite) =~= screen);
    if exists|c: int| 0 <= c < 2048 && !screen[c] && once[c] {
        let c = choose|c: int| 0 <= c < 2048 && !screen[c] && once[c];
        assert(flips(x, y, sprite, c));
        if forall|i: int| 0 <= i < sprite.len() ==> !row_flips(x, y, i, #[trigger] sprite[i], c) {
            lemma_no_row_no_flip(x, y, sprite, c);
        }
        lemma_flip_of_lit_collides(once, x, y, sprite, c);
    }
}

impl View for Display {
    type V = Seq<bool>;

    /// The plane as 2048 flags in row-major order, `true` for a lit pixel.
    closed spec fn view(&self) -> Seq<bool> {
        Seq::new(2048, |c: int| self.screen[c] == 1u8)
    }
}

impl Display {
    /// Every stored pixel is 0 or 1.
    #[verifier::type_invariant]
    closed spec fn well_formed(&self) -> bool {
        forall|c: int| 0 <= c < 2048 ==> self.screen[c] <= 1
    }

    /// A plane with every pixel off.
    pub fn new() -> (display: Display)
        ensures
            display@ == Seq::new(2048, |c: int| false),
    {
        Display { screen: [0; 2048] }
    }

    /// The pixel in column `x` of row `y`: 1 when lit, 0 when off.
    pub fn get_pixel(&self, x: usize, y: usize) -> (pixel: u8)
        requires
            x < SCREEN_WIDTH,
            y < SCREEN_HEIGHT,
        ensures
            pixel == (if self@[cell(x as int, y as int)] { 1u8 } else { 0u8 }),
    {
        proof {
            use_type_invariant(self);
        }
        self.screen[y * SCREEN_WIDTH + x]
    }

    fn set_pixel(&mut self, x: usize, y: usize, value: u8)
        requires
            x < SCREEN_WIDTH,
            y < SCREEN_HEIGHT,
            value <= 1,
        ensures
            final(self)@ == old(self)@.update(cell(x as int, y as int), value == 1),
    {
        proof {
            use_type_invariant(&*self);
        }
        self.screen[y * SCREEN_WIDTH + x] = value;
    }

    /// Turns every pixel off.
    pub fn clear(&mut self)
        ensures
            final(self)@ == Seq::new(2048, |c: int| false),
    {
        for y in 0..SCREEN_HEIGHT
            invariant
                forall|c: int| 0 <= c < y * 64 ==> !self@[c],
        {
            for x in 0..SCREEN_WIDTH
                invariant
                    y < 32,
                    forall|c: int| 0 <= c < y * 64 + x ==> !self@[c],
            {
                self.set_pixel(x, y, 0);
            }
        }
    }

    /// A plane always has 2048 pixels.
    pub proof fn lemma_len(&self)
        ensures
            self@.len() == 2048,
    {
    }

    /// Draws `sprite` with its top-left corner at `(x, y)`. Each byte is one
    /// row of eight pixels, most significant bit leftmost; every set bit
    /// flips the pixel it lands on, and coordinates wrap at the edges.
    /// Returns whether any lit pixel was turned off.
    pub fn draw_sprite(&mut self, x: usize, y: usize, sprite: &[u8]) -> (collision: bool)
        ensures
            final(self)@ == drawn(old(self)@, x as int, y as int, sprite@),
            collision == collides(old(self)@, x as int, y as int, sprite@),
    {
        let mut collision = false;
        let left = x % SCREEN_WIDTH;
        let top = y % SCREEN_HEIGHT;
        let mut i: usize = 0;
        assert(sprite@.take(0) =~= Seq::<u8>::empty());
        assert(self@ =~= drawn(self@, x as int, y as int, sprite@.take(0)));
        while i < sprite.len()
            invariant
                i <= sprite.len(),
                left == x % 64,
                top == y % 32,
                self@ == drawn(old(self)@, x as int, y as int, sprite@.take(i as int)),
                collision == collides(old(self)@, x as int, y as int, sprite@.take(i as int)),
            decreases sprite.len() - i,
        {
            let row = sprite[i];
            let new_y = (top + i % SCREEN_HEIGHT) % SCREEN_HEIGHT;
            let ghost before = self@;
            let mut hit = false;
            let mut j: usize = 0;
            while j < 8
                invariant
                    j <= 8,
                    left == x % 64,
                    new_y == (y + i) % 32,
                    before.len() == 2048,
                    forall|c: int|
                        0 <= c < 2048 ==> self@[c] == (before[c] != (row_flips(
                            x as int,
                            y as int,
                            i as int,
                            row,
                            c,
                        ) && (c % 64 - x) % 64 < j)),
                    hit == row_collides_within(before, x as int, y as int, i as int, row, j as int),
                decreases 8 - j,
            {
                let new_x = (left + j) % SCREEN_WIDTH;
                let shift: u8 = (7 - j) as u8;
                let new_value = (row >> shift) & 1;
                assert(new_value <= 1) by (bit_vector)
                    requires
                        new_value == (row >> shift) & 1,
                ;
                let old_value = self.get_pixel(new_x, new_y);
                assert((new_value ^ old_value) == (if new_value == old_value { 0u8 } else { 1u8 }))
                    by (bit_vector)
                    requires
                        new_value <= 1,
                        old_value <= 1,
                ;
                let ghost mid = self@;
                let ghost hit_before = hit;
                self.set_pixel(new_x, new_y, new_value ^ old_value);
                if old_value == 1 && self.get_pixel(new_x, new_y) == 0 {
                    hit = true;
                }
                proof {
                    let t = cell(new_x as int, new_y as int);
                    assert(new_x == (x + j) % 64);
                    assert((t % 64 - x) % 64 == j);
                    assert(sprite_bit(row, j as int) == (new_value == 1));
                    assert(hit == (hit_before || (before[t] && sprite_bit(row, j as int))));
                    if before[t] && sprite_bit(row, j as int) {
                        assert(row_flips(x as int, y as int, i as int, row, t));
                    }
                    if row_collides_within(before, x as int, y as int, i as int, row, j + 1) {
                        let c = choose|c: int|
                            0 <= c < 2048 && before[c] && #[trigger] row_flips(
                                x as int,
                                y as int,
                                i as int,
                                row,
                                c,
                            ) && (c % 64 - x) % 64 < j + 1;
                        if (c % 64 - x) % 64 == j {
                            assert(c % 64 == (x + j) % 64);
                            assert(c == t);
                        }
                    }
                    assert(hit == row_collides_within(
                        before,
                        x as int,
                        y as int,
                        i as int,
                        row,
                        j + 1,
                    ));
                    assert forall|c: int| 0 <= c < 2048 implies self@[c] == (before[c] != (row_flips(
                        x as int,
                        y as int,
                        i as int,
                        row,
                        c,
                    ) && (c % 64 - x) % 64 < j + 1)) by {
                        if c != t {
                            if c / 64 == new_y && (c % 64 - x) % 64 == j {
                                assert(c % 64 == (x + j) % 64);
                                assert(false);
                            }
                        }
                    }
                }
                j += 1;
            }
            proof {
                let done = sprite@.take(i as int);
                let next = sprite@.take(i + 1);
                assert(next.drop_last() =~= done);
                assert forall|c: int| 0 <= c < 2048 implies self@[c] == (old(self)@[c] != flips(
                    x as int,
                    y as int,
                    next,
                    c,
                )) by {
                    assert(flips(x as int, y as int, next, c) == (flips(x as int, y as int, done, c)
                        != row_flips(x as int, y as int, i as int, row, c)));
                    assert(self@[c] == (before[c] != row_flips(x as int, y as int, i as int, row, c)));
                }
                assert(self@ =~= drawn(old(self)@, x as int, y as int, next));
            }
            if hit {
                collision = true;
            }
            i += 1;
        }
        assert(sprite@.take(sprite@.len() as int) =~= sprite@);
        collision
    }
}

} // verus!
