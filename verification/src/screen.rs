//! The pixel grid and sprite compositing in XOR mode.
use vstd::prelude::*;

verus! {

/// Rows of the stored grid.
pub const GRID_ROWS: usize = 64;

/// Columns of the stored grid.
pub const GRID_COLUMNS: usize = 128;

/// The model of the grid: rows of pixels, `true` for a lit pixel.
pub type Grid = Seq<Seq<bool>>;

/// Whether bit `b` of a sprite row is set, counting from the most
/// significant bit of the low byte.
pub open spec fn sprite_bit(bits: u16, b: u16) -> bool {
    (bits & (0x80u16 >> b)) != 0
}

/// Drawing visits eight bits per sprite row. This is the row of step `k`.
pub open spec fn step_row(k: int) -> int {
    k / 8
}

/// The bit of step `k` within its row.
pub open spec fn step_bit(k: int) -> int {
    k % 8
}

/// Column that step `k` addresses, wrapped to the 64 visible columns.
pub open spec fn step_x(x: u16, k: int) -> int {
    (x + step_bit(k)) % 64
}

/// Row that step `k` addresses, wrapped to the 32 visible rows.
pub open spec fn step_y(y: u16, k: int) -> int {
    (y + step_row(k)) % 32
}

/// Whether step `k` flips a pixel: its sprite bit is set.
pub open spec fn step_fires(sprite: Seq<u16>, k: int) -> bool {
    0 <= k < 8 * sprite.len() && sprite_bit(sprite[step_row(k)], step_bit(k) as u16)
}

/// Whether the first `k` steps flip pixel (`px`, `py`) an odd number of times.
pub open spec fn toggled(x: u16, y: u16, sprite: Seq<u16>, px: int, py: int, k: int) -> bool
    decreases k,
{
    if k <= 0 {
        false
    } else {
        toggled(x, y, sprite, px, py, k - 1) ^ (step_fires(sprite, k - 1) && step_x(x, k - 1) == px
            && step_y(y, k - 1) == py)
    }
}

/// Pixel (`px`, `py`) after the first `k` steps of drawing onto `grid`.
pub open spec fn lit_after(grid: Grid, x: u16, y: u16, sprite: Seq<u16>, px: int, py: int, k: int) -> bool {
    grid[py][px] ^ toggled(x, y, sprite, px, py, k)
}

/// Whether one of the first `k` steps flipped a pixel that was lit when the
/// step reached it.
pub open spec fn collided(grid: Grid, x: u16, y: u16, sprite: Seq<u16>, k: int) -> bool
    decreases k,
{
    if k <= 0 {
        false
    } else {
        collided(grid, x, y, sprite, k - 1) || (step_fires(sprite, k - 1) && lit_after(
            grid,
            x,
            y,
            sprite,
            step_x(x, k - 1),
            step_y(y, k - 1),
            k - 1,
        ))
    }
}

/// The grid after the whole sprite is drawn at (`x`, `y`).
pub open spec fn drawn(grid: Grid, x: u16, y: u16, sprite: Seq<u16>) -> Grid {
    Seq::new(
        64,
        |py: int| Seq::new(128, |px: int| lit_after(grid, x, y, sprite, px, py, (8 * sprite.len()) as int)),
    )
}

/// The collision flag of drawing the whole sprite at (`x`, `y`).
pub open spec fn collision_flag(grid: Grid, x: u16, y: u16, sprite: Seq<u16>) -> u8 {
    if collided(grid, x, y, sprite, (8 * sprite.len()) as int) { 1u8 } else { 0u8 }
}

/// The grid with no pixel lit.
pub open spec fn blank() -> Grid {
    Seq::new(64, |py: int| Seq::new(128, |px: int| false))
}

/// Whether `grid` has the stored shape: 64 rows of 128 pixels.
pub open spec fn well_shaped(grid: Grid) -> bool {
    grid.len() == 64 && forall|r: int| 0 <= r < 64 ==> (#[trigger] grid[r]).len() == 128
}

/// The lit pixels among the first `k` cells of the grid, counted row by
/// row, each as its column and its row.
pub open spec fn lit_cells(grid: Grid, k: int) -> Seq<(usize, usize)>
    decreases k,
{
    if k <= 0 {
        Seq::empty()
    } else {
        lit_cells(grid, k - 1) + (if grid[(k - 1) / 128][(k - 1) % 128] {
            seq![(((k - 1) % 128) as usize, ((k - 1) / 128) as usize)]
        } else {
            Seq::empty()
        })
    }
}

pub struct Screen {
    pub pixels: [[bool; 128]; 64],
    pub width: u32,
    pub height: u32,
    pub extended: bool,
}

impl View for Screen {
    type V = Grid;

    open spec fn view(&self) -> Grid {
        Seq::new(64, |py: int| self.pixels@[py]@)
    }
}

impl Screen {
    /// A blank screen for a window of the given size.
    pub fn new(width: u32, height: u32) -> (out: Self)
        ensures
            out@ == blank(),
            out.width == width,
            out.height == height,
            out.extended,
    {
        let out = Screen { pixels: [[false; 128]; 64], width, height, extended: true };
        assert(out@ =~~= blank());
        out
    }

    /// Turns every pixel off.
    pub fn clear(&mut self)
        ensures
            final(self)@ == blank(),
            final(self).width == old(self).width,
            final(self).height == old(self).height,
            final(self).extended == old(self).extended,
    {
        let blank_row: [bool; 128] = [false; 128];
        let mut row: usize = 0;
        while row < 64
            invariant
                row <= 64,
                self.width == old(self).width,
                self.height == old(self).height,
                self.extended == old(self).extended,
                forall|c: int| 0 <= c < 128 ==> !(#[trigger] blank_row@[c]),
                forall|r: int| 0 <= r < row ==> (#[trigger] self.pixels@[r]) == blank_row,
            decreases 64 - row,
        {
            self.pixels[row] = blank_row;
            row += 1;
        }
        assert(self@ =~~= blank());
    }

    pub fn is_extended(&self) -> (out: bool)
        ensures
            out == self.extended,
    {
        self.extended
    }

    /// Lights the pixel in column `x` of row `y`.
    pub fn set(&mut self, x: usize, y: usize)
        requires
            x < 128,
            y < 64,
        ensures
            final(self)@ == old(self)@.update(y as int, old(self)@[y as int].update(x as int, true)),
            final(self).width == old(self).width,
            final(self).height == old(self).height,
            final(self).extended == old(self).extended,
    {
        let mut row: [bool; 128] = self.pixels[y];
        row[x] = true;
        self.pixels[y] = row;
        assert(self@ =~~= old(self)@.update(y as int, old(self)@[y as int].update(x as int, true)));
    }

    /// Whether the pixel in column `x` of row `y` is lit.
    pub fn get(&self, x: usize, y: usize) -> (out: bool)
        requires
            x < 128,
            y < 64,
        ensures
            out == self@[y as int][x as int],
    {
        let row: [bool; 128] = self.pixels[y];
        row[x]
    }

    /// Records the size of the window. The grid is untouched.
    pub fn resize(&mut self, width: u32, height: u32)
        ensures
            final(self)@ == old(self)@,
            final(self).width == width,
            final(self).height == height,
            final(self).extended == old(self).extended,
    {
        self.height = height;
        self.width = width;
    }

    /// The lit pixels, row by row, each as its column and its row: what a
    /// renderer draws.
    pub fn render(&self) -> (points: Vec<(usize, usize)>)
        ensures
            points@ == lit_cells(self@, 8192),
    {
        let mut points: Vec<(usize, usize)> = Vec::new();
        let mut row: usize = 0;
        while row < 64
            invariant
                row <= 64,
                points@ == lit_cells(self@, 128 * row),
            decreases 64 - row,
        {
            let cells: [bool; 128] = self.pixels[row];
            let mut column: usize = 0;
            while column < 128
                invariant
                    column <= 128,
                    row < 64,
                    cells == self.pixels@[row as int],
                    points@ == lit_cells(self@, 128 * row + column),
                decreases 128 - column,
            {
                let ghost k: int = 128 * row + column;
                assert(k / 128 == row && k % 128 == column);
                if cells[column] {
                    points.push((column, row));
                }
                assert(points@ =~= lit_cells(self@, k + 1));
                column += 1;
            }
            row += 1;
        }
        points
    }

    /// Composites `sprite` onto the grid in XOR mode with its top-left corner
    /// at (`x`, `y`), wrapping at 64 columns and 32 rows. Returns 1 if a lit
    /// pixel was flipped, else 0.
    pub fn draw(&mut self, x: u16, y: u16, sprite: Vec<u16>) -> (vf: u8)
        ensures
            final(self)@ == drawn(old(self)@, x, y, sprite@),
            vf == collision_flag(old(self)@, x, y, sprite@),
            final(self).width == old(self).width,
            final(self).height == old(self).height,
            final(self).extended == old(self).extended,
    {
        let mut vf: u8 = 0;
        let mut yline: usize = 0;
        let ghost start = self@;
        while yline < sprite.len()
            invariant
                yline <= sprite@.len(),
                start == old(self)@,
                self.width == old(self).width,
                self.height == old(self).height,
                self.extended == old(self).extended,
                vf == (if collided(start, x, y, sprite@, 8 * yline) { 1u8 } else { 0u8 }),
                forall|px: int, py: int|
                    0 <= px < 128 && 0 <= py < 64 ==> #[trigger] self.pixels@[py]@[px] == lit_after(
                        start,
                        x,
                        y,
                        sprite@,
                        px,
                        py,
                        8 * yline,
                    ),
            decreases sprite@.len() - yline,
        {
            let bits: u16 = sprite[yline];
            let screen_y: usize = ((y as usize) % 32 + yline % 32) % 32;
            let mut xline: u16 = 0;
            while xline < 8
                invariant
                    xline <= 8,
                    yline < sprite@.len(),
                    bits == sprite@[yline as int],
                    screen_y == (y + yline) % 32,
                    start == old(self)@,
                    self.width == old(self).width,
                    self.height == old(self).height,
                    self.extended == old(self).extended,
                    vf == (if collided(start, x, y, sprite@, 8 * yline + xline) { 1u8 } else { 0u8 }),
                    forall|px: int, py: int|
                        0 <= px < 128 && 0 <= py < 64 ==> #[trigger] self.pixels@[py]@[px] == lit_after(
                            start,
                            x,
                            y,
                            sprite@,
                            px,
                            py,
                            8 * yline + xline,
                        ),
                decreases 8 - xline,
            {
                let ghost k: int = 8 * yline + xline;
                let ghost before = self.pixels;
                assert(step_row(k) == yline && step_bit(k) == xline);
                let screen_x: usize = (x as usize + xline as usize) % 64;
                assert(screen_x == step_x(x, k) && screen_y == step_y(y, k));
                if (bits & (0x80u16 >> xline)) != 0 {
                    assert(step_fires(sprite@, k));
                    let mut row: [bool; 128] = self.pixels[screen_y];
                    let lit: bool = row[screen_x];
                    if lit && vf == 0 {
                        vf = 1;
                    }
                    row[screen_x] = !lit;
                    self.pixels[screen_y] = row;
                } else {
                    assert(!step_fires(sprite@, k));
                }
                assert(forall|px: int, py: int|
                    0 <= px < 128 && 0 <= py < 64 ==> #[trigger] self.pixels@[py]@[px] == (before@[py]@[px]
                        ^ (step_fires(sprite@, k) && step_x(x, k) == px && step_y(y, k) == py)));
                xline += 1;
            }
            yline += 1;
        }
        assert(self@ =~~= drawn(start, x, y, sprite@));
        vf
    }
}

/// Drawing a sprite a second time at the same place restores the grid that
/// was there before the first drawing.
pub proof fn draw_twice_restores(grid: Grid, x: u16, y: u16, sprite: Seq<u16>)
    requires
        well_shaped(grid),
    ensures
        drawn(drawn(grid, x, y, sprite), x, y, sprite) == grid,
{
    let once = drawn(grid, x, y, sprite);
    let twice = drawn(once, x, y, sprite);
    assert forall|py: int, px: int| 0 <= py < 64 && 0 <= px < 128 implies twice[py][px] == grid[py][px] by {
        assert(once[py][px] == lit_after(grid, x, y, sprite, px, py, (8 * sprite.len()) as int));
    }
    assert(twice =~~= grid);
}

/// Within 32 rows no two steps address the same pixel.
proof fn lemma_steps_differ(x: u16, y: u16, j: int, k: int)
    requires
        0 <= j < k < 256,
    ensures
        step_x(x, j) != step_x(x, k) || step_y(y, j) != step_y(y, k),
{
    if j / 8 == k / 8 {
        assert(j % 8 != k % 8);
        assert(step_x(x, j) != step_x(x, k));
    } else {
        assert(0 <= j / 8 < 32 && 0 <= k / 8 < 32);
        assert(step_y(y, j) != step_y(y, k));
    }
}

/// A pixel that the first `k` steps flipped an odd number of times was
/// flipped by one of them.
proof fn lemma_toggled_has_step(x: u16, y: u16, sprite: Seq<u16>, px: int, py: int, k: int) -> (j: int)
    requires
        toggled(x, y, sprite, px, py, k),
    ensures
        0 <= j < k,
        step_fires(sprite, j),
        step_x(x, j) == px,
        step_y(y, j) == py,
    decreases k,
{
    if step_fires(sprite, k - 1) && step_x(x, k - 1) == px && step_y(y, k - 1) == py {
        k - 1
    } else {
        lemma_toggled_has_step(x, y, sprite, px, py, k - 1)
    }
}

/// Within 32 rows a step finds its pixel untouched by the steps before it.
proof fn lemma_fresh_pixel(x: u16, y: u16, sprite: Seq<u16>, k: int)
    requires
        0 <= k < 256,
    ensures
        !toggled(x, y, sprite, step_x(x, k), step_y(y, k), k),
{
    if toggled(x, y, sprite, step_x(x, k), step_y(y, k), k) {
        let j = lemma_toggled_has_step(x, y, sprite, step_x(x, k), step_y(y, k), k);
        lemma_steps_differ(x, y, j, k);
    }
}

/// Within 32 rows the pixel of a step that fires stays flipped.
proof fn lemma_fired_stays(x: u16, y: u16, sprite: Seq<u16>, k: int, upto: int)
    requires
        0 <= k < upto <= 256,
        step_fires(sprite, k),
    ensures
        toggled(x, y, sprite, step_x(x, k), step_y(y, k), upto),
    decreases upto,
{
    if upto == k + 1 {
        lemma_fresh_pixel(x, y, sprite, k);
    } else {
        lemma_fired_stays(x, y, sprite, k, upto - 1);
        lemma_steps_differ(x, y, k, upto - 1);
    }
}

proof fn lemma_no_collision(x: u16, y: u16, sprite: Seq<u16>, k: int)
    requires
        0 <= k <= 256,
    ensures
        !collided(blank(), x, y, sprite, k),
    decreases k,
{
    if k > 0 {
        lemma_no_collision(x, y, sprite, k - 1);
        lemma_fresh_pixel(x, y, sprite, k - 1);
        assert(0 <= step_x(x, k - 1) < 64 && 0 <= step_y(y, k - 1) < 32);
    }
}

proof fn lemma_collision_stays(grid: Grid, x: u16, y: u16, sprite: Seq<u16>, k: int, upto: int)
    requires
        k <= upto,
        collided(grid, x, y, sprite, k),
    ensures
        collided(grid, x, y, sprite, upto),
    decreases upto - k,
{
    if k < upto {
        lemma_collision_stays(grid, x, y, sprite, k, upto - 1);
    }
}

/// On a grid with no pixel lit, drawing a sprite of at most 32 rows reports
/// no collision.
pub proof fn first_draw_reports_no_collision(x: u16, y: u16, sprite: Seq<u16>)
    requires
        sprite.len() <= 32,
    ensures
        collision_flag(blank(), x, y, sprite) == 0,
{
    lemma_no_collision(x, y, sprite, (8 * sprite.len()) as int);
}

/// Drawing a sprite of at most 32 rows onto a grid with no pixel lit and
/// then once more at the same place reports a collision the second time,
/// provided that the sprite has a bit set.
pub proof fn second_draw_reports_collision(x: u16, y: u16, sprite: Seq<u16>, k: int)
    requires
        sprite.len() <= 32,
        step_fires(sprite, k),
    ensures
        collision_flag(drawn(blank(), x, y, sprite), x, y, sprite) == 1,
{
    let total = (8 * sprite.len()) as int;
    let once = drawn(blank(), x, y, sprite);
    let px = step_x(x, k);
    let py = step_y(y, k);
    assert(0 <= px < 64 && 0 <= py < 32);
    lemma_fired_stays(x, y, sprite, k, total);
    assert(once[py][px] == lit_after(blank(), x, y, sprite, px, py, total));
    assert(once[py][px]);
    lemma_fresh_pixel(x, y, sprite, k);
    assert(lit_after(once, x, y, sprite, px, py, k));
    assert(collided(once, x, y, sprite, k + 1));
    lemma_collision_stays(once, x, y, sprite, k + 1, total);
}

} // verus!
