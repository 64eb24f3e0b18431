//! The monochrome framebuffer and the drawing of sprites onto it.
use vstd::prelude::*;

verus! {

/// Number of pixel columns.
pub const WIDTH: u8 = 64;

/// Number of pixel rows.
pub const HEIGHT: u8 = 32;

/// One cell of the framebuffer.
#[derive(Copy, Clone)]
pub struct Pixel {
    state: bool,
}

impl View for Pixel {
    type V = bool;

    closed spec fn view(&self) -> bool {
        self.state
    }
}

/// The framebuffer: 32 rows of 64 pixels, row 0 on top, column 0 on the left.
pub struct Screen {
    pub pixels: [[Pixel; 64]; 32],
}

impl View for Screen {
    type V = Seq<Seq<bool>>;

    /// The rows from top to bottom, each from left to right; `true` is lit.
    open spec fn view(&self) -> Seq<Seq<bool>> {
        Seq::new(HEIGHT as nat, |y: int| Seq::new(WIDTH as nat, |x: int| self.pixels[y][x]@))
    }
}

/// What an instruction did to the picture, for whoever shows it.
#[derive(Debug, PartialEq, Eq)]
pub enum DisplayUpdate {
    /// The picture is as it was.
    Unchanged,
    /// Every pixel was turned off.
    Cleared,
    /// The pixels at these coordinates (column, row) changed state.
    Toggled(Vec<(u8, u8)>),
}

/// A [`DisplayUpdate`] as a mathematical value.
pub enum DisplayChange {
    Unchanged,
    Cleared,
    Toggled(Seq<(u8, u8)>),
}

impl View for DisplayUpdate {
    type V = DisplayChange;

    open spec fn view(&self) -> DisplayChange {
        match self {
            DisplayUpdate::Unchanged => DisplayChange::Unchanged,
            DisplayUpdate::Cleared => DisplayChange::Cleared,
            DisplayUpdate::Toggled(pixels) => DisplayChange::Toggled(pixels@),
        }
    }
}

/// The shape that the view of every [`Screen`] has.
pub open spec fn is_grid(grid: Seq<Seq<bool>>) -> bool {
    &&& grid.len() == HEIGHT
    &&& forall|y: int| 0 <= y < HEIGHT ==> (#[trigger] grid[y]).len() == WIDTH
}

/// The grid in which no pixel is lit.
pub open spec fn blank() -> Seq<Seq<bool>> {
    Seq::new(HEIGHT as nat, |y: int| Seq::new(WIDTH as nat, |x: int| false))
}

/// Every coordinate of the grid, row by row from the top, each row from the
/// left.
pub open spec fn all_coordinates() -> Seq<(u8, u8)> {
    Seq::new((WIDTH * HEIGHT) as nat, |i: int| ((i % WIDTH as int) as u8, (i / WIDTH as int) as u8))
}

/// Whether `row` has a set bit in `column`, column 0 being the most
/// significant bit.
pub open spec fn sprite_bit(row: u8, column: u8) -> bool {
    (row >> ((7 - column) as u8)) & 1 == 1
}

/// Whether the sprite `rows`, put with its top left corner at
/// (`origin_x`, `origin_y`), has a set bit over the pixel (`x`, `y`) of the
/// grid. Bits that would fall right of or below the grid cover nothing.
pub open spec fn covers(origin_x: int, origin_y: int, rows: Seq<u8>, x: int, y: int) -> bool {
    &&& 0 <= x < WIDTH
    &&& 0 <= y < HEIGHT
    &&& origin_x <= x < origin_x + 8
    &&& origin_y <= y < origin_y + rows.len()
    &&& sprite_bit(rows[y - origin_y], (x - origin_x) as u8)
}

/// The grid after the sprite is drawn: each covered pixel is toggled.
pub open spec fn drawn(grid: Seq<Seq<bool>>, origin_x: int, origin_y: int, rows: Seq<u8>) -> Seq<
    Seq<bool>,
> {
    Seq::new(
        HEIGHT as nat,
        |y: int|
            Seq::new(
                WIDTH as nat,
                |x: int| grid[y][x] != covers(origin_x, origin_y, rows, x, y),
            ),
    )
}

/// Whether drawing the sprite turns a lit pixel off.
pub open spec fn collides(grid: Seq<Seq<bool>>, origin_x: int, origin_y: int, rows: Seq<u8>) -> bool {
    exists|x: int, y: int| #[trigger] covers(origin_x, origin_y, rows, x, y) && grid[y][x]
}

/// The pixels of line `y` that the first `columns` bits of `row` cover, from
/// left to right.
pub open spec fn row_pixels(origin_x: int, y: int, row: u8, columns: int) -> Seq<(u8, u8)>
    decreases columns,
{
    if columns <= 0 {
        Seq::empty()
    } else {
        let before = row_pixels(origin_x, y, row, columns - 1);
        let x = origin_x + columns - 1;
        if x < WIDTH && sprite_bit(row, (columns - 1) as u8) {
            before.push((x as u8, y as u8))
        } else {
            before
        }
    }
}

/// The pixels that drawing the sprite toggles, in the order in which they
/// are toggled: row by row from the top, each row from the left.
pub open spec fn toggled_pixels(origin_x: int, origin_y: int, rows: Seq<u8>) -> Seq<(u8, u8)>
    decreases rows.len(),
{
    if rows.len() == 0 {
        Seq::empty()
    } else {
        let before = toggled_pixels(origin_x, origin_y, rows.drop_last());
        let y = origin_y + rows.len() - 1;
        if y < HEIGHT {
            before + row_pixels(origin_x, y, rows.last(), 8)
        } else {
            before
        }
    }
}

/// Cover by the first `i` rows of the sprite and by the first `columns` bits
/// of the row after them: what a drawing in progress has toggled so far.
spec fn covers_so_far(
    origin_x: int,
    origin_y: int,
    rows: Seq<u8>,
    i: int,
    columns: int,
    x: int,
    y: int,
) -> bool {
    covers(origin_x, origin_y, rows.take(i), x, y) || (y == origin_y + i && x < origin_x + columns
        && covers(origin_x, origin_y, rows.take(i + 1), x, y))
}

/// Bits that would fall right of the grid add nothing to a row.
proof fn lemma_columns_right_are_clipped(origin_x: int, y: int, row: u8, j: int, columns: int)
    requires
        0 <= j <= columns,
        origin_x + j >= WIDTH,
    ensures
        row_pixels(origin_x, y, row, columns) == row_pixels(origin_x, y, row, j),
    decreases columns,
{
    if columns > j {
        lemma_columns_right_are_clipped(origin_x, y, row, j, columns - 1);
    }
}

/// Rows that would fall below the grid add nothing to a drawing.
proof fn lemma_rows_below_are_clipped(origin_x: int, origin_y: int, rows: Seq<u8>, i: int)
    requires
        0 <= i <= rows.len(),
        origin_y + i >= HEIGHT,
    ensures
        toggled_pixels(origin_x, origin_y, rows) == toggled_pixels(origin_x, origin_y, rows.take(i)),
        forall|x: int, y: int|
            covers(origin_x, origin_y, rows, x, y) == covers(origin_x, origin_y, rows.take(i), x, y),
    decreases rows.len(),
{
    if rows.len() > i {
        lemma_rows_below_are_clipped(origin_x, origin_y, rows.drop_last(), i);
        assert(rows.drop_last().take(i) =~= rows.take(i));
    } else {
        assert(rows.take(i) =~= rows);
    }
}

impl Screen {
    /// A screen on which no pixel is lit.
    pub fn new() -> (screen: Screen)
        ensures
            screen@ == blank(),
    {
        let screen = Screen { pixels: [[Pixel { state: false };64];32] };
        assert(screen@ =~~= blank());
        screen
    }

    /// Turns every pixel off.
    pub fn clear(&mut self)
        ensures
            final(self)@ == blank(),
            forall|x: int, y: int| 0 <= x < WIDTH && 0 <= y < HEIGHT ==> !final(self)@[y][x],
    {
        self.pixels = [[Pixel { state: false };64];32];
        assert(self@ =~~= blank());
    }

    /// Whether the pixel in column `x` of row `y` is lit.
    pub fn is_on(&self, x: u8, y: u8) -> (on: bool)
        requires
            x < WIDTH,
            y < HEIGHT,
        ensures
            on == self@[y as int][x as int],
    {
        self.pixels[y as usize][x as usize].state
    }

    /// Turns the pixel in column `x` of row `y` on or off.
    pub fn set(&mut self, x: u8, y: u8, state: bool)
        requires
            x < WIDTH,
            y < HEIGHT,
        ensures
            final(self)@ == old(self)@.update(
                y as int,
                old(self)@[y as int].update(x as int, state),
            ),
    {
        let x: usize = x as usize;
        let y: usize = y as usize;
        self.pixels[y][x].state = state;
        assert(self@ =~~= old(self)@.update(y as int, old(self)@[y as int].update(x as int, state)));
    }

    /// Every coordinate of the screen, row by row from the top, each row
    /// from the left.
    pub fn iter_coord() -> (coordinates: Vec<(u8, u8)>)
        ensures
            coordinates@ == all_coordinates(),
    {
        let mut coordinates: Vec<(u8, u8)> = Vec::new();
        let mut y: u8 = 0;
        while y < HEIGHT
            invariant
                y <= HEIGHT,
                coordinates@ == all_coordinates().take(y * WIDTH),
            decreases HEIGHT - y,
        {
            let mut x: u8 = 0;
            while x < WIDTH
                invariant
                    x <= WIDTH,
                    y < HEIGHT,
                    coordinates@ == all_coordinates().take(y * WIDTH + x),
                decreases WIDTH - x,
            {
                coordinates.push((x, y));
                x += 1;
                assert(coordinates@ =~= all_coordinates().take(y * WIDTH + x));
            }
            y += 1;
        }
        assert(all_coordinates().take(HEIGHT * WIDTH) =~= all_coordinates());
        coordinates
    }

    /// Draws a sprite, one byte per row and the most significant bit on the
    /// left, with its top left corner at column `origin_x % 64` of row
    /// `origin_y % 32`.
    ///
    /// Each set bit toggles the pixel under it; bits right of or below the
    /// screen are dropped. Returns whether a lit pixel was turned off, and
    /// the coordinates of the pixels that changed.
    pub fn draw_sprite(&mut self, origin_x: u8, origin_y: u8, sprite_rows: &[u8]) -> (result: (
        bool,
        Vec<(u8, u8)>,
    ))
        ensures
            final(self)@ == drawn(
                old(self)@,
                (origin_x % WIDTH) as int,
                (origin_y % HEIGHT) as int,
                sprite_rows@,
            ),
            result.0 == collides(
                old(self)@,
                (origin_x % WIDTH) as int,
                (origin_y % HEIGHT) as int,
                sprite_rows@,
            ),
            result.1@ == toggled_pixels(
                (origin_x % WIDTH) as int,
                (origin_y % HEIGHT) as int,
                sprite_rows@,
            ),
    {
        let ox: u8 = origin_x % WIDTH;
        let oy: u8 = origin_y % HEIGHT;
        let ghost rows = sprite_rows@;
        let ghost gx = ox as int;
        let ghost gy = oy as int;
        let mut collided = false;
        let mut changed: Vec<(u8, u8)> = Vec::new();
        let mut i: usize = 0;
        assert(self@ =~~= drawn(old(self)@, gx, gy, rows.take(0)));
        while i < sprite_rows.len() && i < (HEIGHT - oy) as usize
            invariant
                rows == sprite_rows@,
                gx == ox < WIDTH,
                gy == oy < HEIGHT,
                i <= rows.len(),
                self@ == drawn(old(self)@, gx, gy, rows.take(i as int)),
                collided == collides(old(self)@, gx, gy, rows.take(i as int)),
                changed@ == toggled_pixels(gx, gy, rows.take(i as int)),
            decreases rows.len() - i,
        {
            let row: u8 = sprite_rows[i];
            let y: u8 = oy + i as u8;
            let ghost gi = i as int;
            let mut j: u8 = 0;
            proof {
                assert(rows.take(gi + 1).drop_last() =~= rows.take(gi));
                assert(rows.take(gi + 1).last() == row);
                assert forall|xx: int, yy: int|
                    #![trigger covers_so_far(gx, gy, rows, gi, 0, xx, yy)]
                    #![trigger covers(gx, gy, rows.take(gi), xx, yy)]
                    covers_so_far(gx, gy, rows, gi, 0, xx, yy) == covers(
                        gx,
                        gy,
                        rows.take(gi),
                        xx,
                        yy,
                    ) by {}
                if collided {
                    let (wx, wy) = choose|xx: int, yy: int|
                        #[trigger] covers(gx, gy, rows.take(gi), xx, yy) && old(self)@[yy][xx];
                    assert(covers_so_far(gx, gy, rows, gi, 0, wx, wy));
                }
            }
            while j < 8 && ox + j < WIDTH
                invariant
                    rows == sprite_rows@,
                    gx == ox < WIDTH,
                    gy == oy < HEIGHT,
                    gi == i < rows.len(),
                    row == rows[gi],
                    y == oy + i,
                    y < HEIGHT,
                    j <= 8,
                    forall|xx: int, yy: int|
                        0 <= xx < WIDTH && 0 <= yy < HEIGHT ==> self@[yy][xx] == (old(
                            self,
                        )@[yy][xx] != #[trigger] covers_so_far(gx, gy, rows, gi, j as int, xx, yy)),
                    collided == (exists|xx: int, yy: int|
                        #[trigger] covers_so_far(gx, gy, rows, gi, j as int, xx, yy) && old(
                            self,
                        )@[yy][xx]),
                    changed@ == toggled_pixels(gx, gy, rows.take(gi)) + row_pixels(
                        gx,
                        y as int,
                        row,
                        j as int,
                    ),
                decreases 8 - j,
            {
                let x: u8 = ox + j;
                let ghost j0 = j as int;
                let ghost j1 = j0 + 1;
                let ghost collided_before = collided;
                assert(!covers_so_far(gx, gy, rows, gi, j0, x as int, y as int));
                assert(sprite_bit(row, j) == ((row >> (7 - j)) & 1 == 1));
                let lit: bool = (row >> (7 - j)) & 1 == 1;
                if lit {
                    if self.is_on(x, y) {
                        collided = true;
                        self.set(x, y, false);
                    } else {
                        self.set(x, y, true);
                    }
                    changed.push((x, y));
                }
                j += 1;
                proof {
                    assert forall|xx: int, yy: int|
                        #![trigger covers_so_far(gx, gy, rows, gi, j1, xx, yy)]
                        #![trigger covers_so_far(gx, gy, rows, gi, j0, xx, yy)]
                        covers_so_far(gx, gy, rows, gi, j1, xx, yy) == (covers_so_far(
                            gx,
                            gy,
                            rows,
                            gi,
                            j0,
                            xx,
                            yy,
                        ) || (xx == x && yy == y && lit)) by {}
                    if collided_before {
                        let (wx, wy) = choose|xx: int, yy: int|
                            #[trigger] covers_so_far(gx, gy, rows, gi, j0, xx, yy) && old(
                                self,
                            )@[yy][xx];
                        assert(covers_so_far(gx, gy, rows, gi, j1, wx, wy));
                    }
                    if lit && old(self)@[y as int][x as int] {
                        assert(covers_so_far(gx, gy, rows, gi, j1, x as int, y as int));
                    }
                    assert(changed@ =~= toggled_pixels(gx, gy, rows.take(gi)) + row_pixels(
                        gx,
                        y as int,
                        row,
                        j1,
                    ));
                }
            }
            proof {
                if j < 8 {
                    lemma_columns_right_are_clipped(gx, y as int, row, j as int, 8);
                }
                assert forall|xx: int, yy: int|
                    #![trigger covers_so_far(gx, gy, rows, gi, j as int, xx, yy)]
                    #![trigger covers(gx, gy, rows.take(gi + 1), xx, yy)]
                    covers_so_far(gx, gy, rows, gi, j as int, xx, yy) == covers(
                        gx,
                        gy,
                        rows.take(gi + 1),
                        xx,
                        yy,
                    ) by {}
                if collided {
                    let (wx, wy) = choose|xx: int, yy: int|
                        #[trigger] covers_so_far(gx, gy, rows, gi, j as int, xx, yy) && old(
                            self,
                        )@[yy][xx];
                    assert(covers(gx, gy, rows.take(gi + 1), wx, wy));
                }
                assert forall|xx: int, yy: int| 0 <= xx < WIDTH && 0 <= yy < HEIGHT implies #[trigger]
                self@[yy][xx] == drawn(old(self)@, gx, gy, rows.take(gi + 1))[yy][xx] by {
                    assert(covers_so_far(gx, gy, rows, gi, j as int, xx, yy) == covers(
                        gx,
                        gy,
                        rows.take(gi + 1),
                        xx,
                        yy,
                    ));
                }
            }
            i += 1;
            assert(self@ =~~= drawn(old(self)@, gx, gy, rows.take(i as int)));
        }
        proof {
            if i < rows.len() {
                lemma_rows_below_are_clipped(gx, gy, rows, i as int);
            } else {
                assert(rows.take(i as int) =~= rows);
            }
            assert(self@ =~~= drawn(old(self)@, gx, gy, rows));
            if collided {
                let (wx, wy) = choose|xx: int, yy: int|
                    #[trigger] covers(gx, gy, rows.take(i as int), xx, yy) && old(self)@[yy][xx];
                assert(covers(gx, gy, rows, wx, wy));
            }
        }
        (collided, changed)
    }
}

/// Drawing a sprite twice at the same place gives back the grid as it was,
/// and the second drawing turns a lit pixel off exactly if the sprite covers
/// a pixel that is lit after the first, which is one that was dark before it.
pub proof fn lemma_draw_twice_restores(
    grid: Seq<Seq<bool>>,
    origin_x: int,
    origin_y: int,
    rows: Seq<u8>,
)
    requires
        is_grid(grid),
    ensures
        drawn(drawn(grid, origin_x, origin_y, rows), origin_x, origin_y, rows) == grid,
        collides(drawn(grid, origin_x, origin_y, rows), origin_x, origin_y, rows) <==> (exists|
            x: int,
            y: int,
        |
            #[trigger] covers(origin_x, origin_y, rows, x, y) && drawn(
                grid,
                origin_x,
                origin_y,
                rows,
            )[y][x]),
        collides(drawn(grid, origin_x, origin_y, rows), origin_x, origin_y, rows) <==> (exists|
            x: int,
            y: int,
        | #[trigger] covers(origin_x, origin_y, rows, x, y) && !grid[y][x]),
{
    let once = drawn(grid, origin_x, origin_y, rows);
    assert(drawn(once, origin_x, origin_y, rows) =~~= grid);
    if collides(once, origin_x, origin_y, rows) {
        let (x, y) = choose|x: int, y: int|
            #[trigger] covers(origin_x, origin_y, rows, x, y) && once[y][x];
        assert(covers(origin_x, origin_y, rows, x, y) && !grid[y][x]);
    }
    if exists|x: int, y: int| #[trigger] covers(origin_x, origin_y, rows, x, y) && !grid[y][x] {
        let (x, y) = choose|x: int, y: int|
            #[trigger] covers(origin_x, origin_y, rows, x, y) && !grid[y][x];
        assert(covers(origin_x, origin_y, rows, x, y) && once[y][x]);
    }
}

/// A row reports exactly the pixels that its bits cover.
proof fn lemma_row_pixels_contains(origin_x: int, y: int, row: u8, columns: int, px: u8, py: u8)
    requires
        0 <= origin_x,
        0 <= y < HEIGHT,
        0 <= columns <= 8,
    ensures
        row_pixels(origin_x, y, row, columns).contains((px, py)) <==> (py == y && origin_x <= px
            < origin_x + columns && px < WIDTH && sprite_bit(row, (px - origin_x) as u8)),
    decreases columns,
{
    if columns > 0 {
        lemma_row_pixels_contains(origin_x, y, row, columns - 1, px, py);
        let before = row_pixels(origin_x, y, row, columns - 1);
        let x = origin_x + columns - 1;
        if x < WIDTH && sprite_bit(row, (columns - 1) as u8) {
            let p = (x as u8, y as u8);
            assert(before.push(p).last() == p);
            assert(before.push(p).drop_last() =~= before);
            assert(before.push(p).contains((px, py)) <==> (before.contains((px, py)) || p == (
                px,
                py,
            ))) by {
                if before.contains((px, py)) {
                    let k = choose|k: int| 0 <= k < before.len() && before[k] == (px, py);
                    assert(before.push(p)[k] == (px, py));
                }
                if p == (px, py) {
                    assert(before.push(p)[before.len() as int] == (px, py));
                }
            }
        }
    } else {
        assert(!Seq::<(u8, u8)>::empty().contains((px, py)));
    }
}

/// The pixels that a drawing reports as changed are exactly those that the
/// sprite covers.
pub proof fn lemma_toggled_pixels_are_the_covered(
    origin_x: int,
    origin_y: int,
    rows: Seq<u8>,
    x: u8,
    y: u8,
)
    requires
        0 <= origin_x,
        0 <= origin_y,
    ensures
        toggled_pixels(origin_x, origin_y, rows).contains((x, y)) <==> covers(
            origin_x,
            origin_y,
            rows,
            x as int,
            y as int,
        ),
    decreases rows.len(),
{
    if rows.len() > 0 {
        let before = toggled_pixels(origin_x, origin_y, rows.drop_last());
        let line = origin_y + rows.len() - 1;
        lemma_toggled_pixels_are_the_covered(origin_x, origin_y, rows.drop_last(), x, y);
        assert(covers(origin_x, origin_y, rows.drop_last(), x as int, y as int) <==> (covers(
            origin_x,
            origin_y,
            rows,
            x as int,
            y as int,
        ) && y != line));
        if line < HEIGHT {
            let last = row_pixels(origin_x, line, rows.last(), 8);
            lemma_row_pixels_contains(origin_x, line, rows.last(), 8, x, y);
            assert((before + last).contains((x, y)) <==> (before.contains((x, y)) || last.contains(
                (x, y),
            ))) by {
                if before.contains((x, y)) {
                    let k = choose|k: int| 0 <= k < before.len() && before[k] == (x, y);
                    assert((before + last)[k] == (x, y));
                }
                if last.contains((x, y)) {
                    let k = choose|k: int| 0 <= k < last.len() && last[k] == (x, y);
                    assert((before + last)[before.len() + k] == (x, y));
                }
                if (before + last).contains((x, y)) {
                    let k = choose|k: int|
                        0 <= k < (before + last).len() && (before + last)[k] == (x, y);
                    if k < before.len() {
                        assert(before[k] == (x, y));
                    } else {
                        assert(last[k - before.len()] == (x, y));
                    }
                }
            }
        }
    } else {
        assert(!Seq::<(u8, u8)>::empty().contains((x, y)));
    }
}

/// The place of a pixel when the screen is read row by row from the top,
/// each row from the left.
pub open spec fn reading_order(pixel: (u8, u8)) -> int {
    pixel.1 * WIDTH + pixel.0
}

/// The pixels of a row lie on its line inside the screen, from left to
/// right.
proof fn lemma_row_pixels_in_order(origin_x: int, y: int, row: u8, columns: int)
    requires
        0 <= origin_x,
        0 <= y < HEIGHT,
        0 <= columns <= 8,
    ensures
        forall|k: int|
            0 <= k < row_pixels(origin_x, y, row, columns).len() ==> {
                let pixel = #[trigger] row_pixels(origin_x, y, row, columns)[k];
                pixel.1 == y && pixel.0 < WIDTH && pixel.0 < origin_x + columns
            },
        forall|k: int, l: int|
            0 <= k < l < row_pixels(origin_x, y, row, columns).len() ==> (#[trigger] row_pixels(
                origin_x,
                y,
                row,
                columns,
            )[k]).0 < (#[trigger] row_pixels(origin_x, y, row, columns)[l]).0,
    decreases columns,
{
    if columns > 0 {
        lemma_row_pixels_in_order(origin_x, y, row, columns - 1);
        let before = row_pixels(origin_x, y, row, columns - 1);
        let all = row_pixels(origin_x, y, row, columns);
        assert forall|k: int| 0 <= k < all.len() implies {
            let pixel = #[trigger] all[k];
            pixel.1 == y && pixel.0 < WIDTH && pixel.0 < origin_x + columns
        } by {
            if k < before.len() {
                assert(all[k] == before[k]);
            }
        }
        assert forall|k: int, l: int| 0 <= k < l < all.len() implies (#[trigger] all[k]).0 < (
        #[trigger] all[l]).0 by {
            assert(all[k] == before[k]);
            if l < before.len() {
                assert(all[l] == before[l]);
            }
        }
    }
}

/// A drawing reports the pixels that changed in reading order, so that none
/// is reported twice.
pub proof fn lemma_toggled_pixels_in_reading_order(origin_x: int, origin_y: int, rows: Seq<u8>)
    requires
        0 <= origin_x,
        0 <= origin_y,
    ensures
        forall|k: int, l: int|
            0 <= k < l < toggled_pixels(origin_x, origin_y, rows).len() ==> reading_order(
                #[trigger] toggled_pixels(origin_x, origin_y, rows)[k],
            ) < reading_order(#[trigger] toggled_pixels(origin_x, origin_y, rows)[l]),
        forall|k: int|
            0 <= k < toggled_pixels(origin_x, origin_y, rows).len() ==> {
                let pixel = #[trigger] toggled_pixels(origin_x, origin_y, rows)[k];
                pixel.0 < WIDTH && pixel.1 < HEIGHT && pixel.1 < origin_y + rows.len()
            },
        toggled_pixels(origin_x, origin_y, rows).no_duplicates(),
    decreases rows.len(),
{
    let all = toggled_pixels(origin_x, origin_y, rows);
    if rows.len() > 0 {
        lemma_toggled_pixels_in_reading_order(origin_x, origin_y, rows.drop_last());
        let before = toggled_pixels(origin_x, origin_y, rows.drop_last());
        let line = origin_y + rows.len() - 1;
        if line < HEIGHT {
            let last = row_pixels(origin_x, line, rows.last(), 8);
            lemma_row_pixels_in_order(origin_x, line, rows.last(), 8);
            assert forall|k: int| 0 <= k < all.len() implies {
                let pixel = #[trigger] all[k];
                pixel.0 < WIDTH && pixel.1 < HEIGHT && pixel.1 < origin_y + rows.len()
                    && (k < before.len() ==> pixel.1 < line) && (k >= before.len() ==> pixel.1
                    == line)
            } by {
                if k < before.len() {
                    assert(all[k] == before[k]);
                } else {
                    assert(all[k] == last[k - before.len()]);
                }
            }
            assert forall|k: int, l: int| 0 <= k < l < all.len() implies reading_order(
                #[trigger] all[k],
            ) < reading_order(#[trigger] all[l]) by {
                if l < before.len() {
                    assert(all[k] == before[k] && all[l] == before[l]);
                } else if k >= before.len() {
                    assert(all[k] == last[k - before.len()] && all[l] == last[l - before.len()]);
                }
            }
        }
    }
    assert forall|k: int, l: int| 0 <= k < all.len() && 0 <= l < all.len() && k != l implies all[k]
        != all[l] by {
        if k < l {
            assert(reading_order(all[k]) < reading_order(all[l]));
        } else {
            assert(reading_order(all[l]) < reading_order(all[k]));
        }
    }
}

} // verus!
