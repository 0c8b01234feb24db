use rand::Rng;
use vstd::prelude::*;

verus! {

/// Side of one tile, in pixels.
pub const TILE_SIZE: u32 = 16;

/// Cell state that counts as "filled".
pub const FILLED: u8 = 1;

/// rand's handle to the thread-local generator, carried through unread.
#[verifier::external_type_specification]
#[verifier::external_body]
pub struct ExThreadRng(rand::rngs::ThreadRng);

/// Relies on rand::thread_rng: a handle to the thread-local generator.
pub assume_specification[ rand::thread_rng ]() -> rand::rngs::ThreadRng;

/// Relies on Rng::gen_range over the non-empty range 0..=1: the value drawn lies in it.
#[verifier::external_body]
fn draw_cell(rng: &mut rand::rngs::ThreadRng) -> (r: u8)
    ensures
        r <= 1,
{
    rng.gen_range(0..=1u8)
}

/// `rows` has exactly `h` rows of exactly `w` values, each 0 or 1.
pub open spec fn is_binary_grid(rows: Seq<Seq<u8>>, w: nat, h: nat) -> bool {
    &&& rows.len() == h
    &&& forall|y: int| 0 <= y < h ==> (#[trigger] rows[y]).len() == w
    &&& forall|y: int, x: int| 0 <= y < h && 0 <= x < w ==> #[trigger] rows[y][x] <= 1
}

/// Dimensions for which a grid, and its composite image, can be held.
pub open spec fn valid_dims(w: nat, h: nat) -> bool {
    &&& 0 < w && 0 < h
    &&& w * TILE_SIZE <= u32::MAX
    &&& h * TILE_SIZE <= u32::MAX
}

/// Position `k` of a neighborhood lies this many columns right of its center.
pub open spec fn col_offset(k: int) -> int {
    k % 3 - 1
}

/// Position `k` of a neighborhood lies this many rows below its center.
pub open spec fn row_offset(k: int) -> int {
    k / 3 - 1
}

/// A binary terrain grid of `w` columns and `h` rows.
pub struct TerrainGrid {
    w: u32,
    h: u32,
    cells: Vec<Vec<u8>>,
}

impl View for TerrainGrid {
    type V = Seq<Seq<u8>>;

    closed spec fn view(&self) -> Seq<Seq<u8>> {
        self.cells@.map_values(|row: Vec<u8>| row@)
    }
}

impl TerrainGrid {
    pub closed spec fn spec_width(&self) -> nat {
        self.w as nat
    }

    pub closed spec fn spec_height(&self) -> nat {
        self.h as nat
    }

    pub open spec fn wf(&self) -> bool {
        &&& valid_dims(self.spec_width(), self.spec_height())
        &&& is_binary_grid(self@, self.spec_width(), self.spec_height())
    }

    /// The cell at `(x, y)` exists and holds `id`.
    pub open spec fn filled_at(&self, x: int, y: int, id: u8) -> bool {
        &&& 0 <= x < self.spec_width()
        &&& 0 <= y < self.spec_height()
        &&& self@[y][x] == id
    }

    /// The 3x3 neighborhood of `(x, y)`, row-major, center at position 4.
    pub open spec fn neighborhood_spec(&self, x: int, y: int, id: u8) -> Seq<bool> {
        Seq::new(9, |k: int| self.filled_at(x + col_offset(k), y + row_offset(k), id))
    }

    /// A grid of `w` columns and `h` rows, each cell drawn at random as 0 or 1.
    pub fn generate(w: u32, h: u32) -> (g: TerrainGrid)
        requires
            valid_dims(w as nat, h as nat),
        ensures
            g.wf(),
            g.spec_width() == w,
            g.spec_height() == h,
    {
        let mut rng = rand::thread_rng();
        let mut cells: Vec<Vec<u8>> = Vec::new();
        let mut y: u32 = 0;
        while y < h
            invariant
                y <= h,
                cells@.len() == y,
                forall|i: int| 0 <= i < y ==> (#[trigger] cells@[i])@.len() == w,
                forall|i: int, j: int| 0 <= i < y && 0 <= j < w ==> #[trigger] cells@[i]@[j] <= 1,
            decreases h - y,
        {
            let mut row: Vec<u8> = Vec::new();
            let mut x: u32 = 0;
            while x < w
                invariant
                    x <= w,
                    row@.len() == x,
                    forall|j: int| 0 <= j < x ==> #[trigger] row@[j] <= 1,
                decreases w - x,
            {
                let n = draw_cell(&mut rng);
                row.push(n);
                x = x + 1;
            }
            cells.push(row);
            y = y + 1;
        }
        let g = TerrainGrid { w, h, cells };
        assert forall|i: int, j: int| 0 <= i < h && 0 <= j < w implies #[trigger] g@[i][j] <= 1 by {
            assert(g@[i] == cells@[i]@);
        }
        g
    }

    /// The grid whose rows are `rows`, or `None` unless `rows` is a non-empty
    /// rectangle of 0/1 values whose dimensions `valid_dims` admits.
    pub fn from_rows(rows: Vec<Vec<u8>>) -> (r: Option<TerrainGrid>)
        ensures
            r is Some <==> (rows@.len() > 0 && is_binary_grid(
                rows@.map_values(|row: Vec<u8>| row@),
                rows@[0]@.len(),
                rows@.len() as nat,
            ) && valid_dims(rows@[0]@.len(), rows@.len() as nat)),
            r matches Some(g) ==> g.wf() && g@ == rows@.map_values(|row: Vec<u8>| row@),
    {
        let ghost v = rows@.map_values(|row: Vec<u8>| row@);
        let h = rows.len();
        if h == 0 || h > (u32::MAX / TILE_SIZE) as usize {
            return None;
        }
        let w = rows[0].len();
        if w == 0 || w > (u32::MAX / TILE_SIZE) as usize {
            return None;
        }
        let mut y: usize = 0;
        while y < h
            invariant
                h == rows@.len(),
                w == rows@[0]@.len(),
                v == rows@.map_values(|row: Vec<u8>| row@),
                y <= h,
                forall|i: int| 0 <= i < y ==> (#[trigger] v[i]).len() == w,
                forall|i: int, j: int| 0 <= i < y && 0 <= j < w ==> #[trigger] v[i][j] <= 1,
            decreases h - y,
        {
            assert(v[y as int] == rows@[y as int]@);
            if rows[y].len() != w {
                return None;
            }
            let mut x: usize = 0;
            while x < w
                invariant
                    h == rows@.len(),
                    w == rows@[0]@.len(),
                    y < h,
                    rows@[y as int]@.len() == w,
                    v == rows@.map_values(|row: Vec<u8>| row@),
                    x <= w,
                    forall|j: int| 0 <= j < x ==> #[trigger] v[y as int][j] <= 1,
                decreases w - x,
            {
                if rows[y][x] > 1 {
                    assert(v[y as int][x as int] > 1);
                    return None;
                }
                x = x + 1;
            }
            y = y + 1;
        }
        Some(TerrainGrid { w: w as u32, h: h as u32, cells: rows })
    }

    /// The 3x3 neighborhood of cell `(x, y)`: each position is true when the cell
    /// there exists and holds `id`; positions off the grid are false.
    pub fn neighborhood(&self, x: u32, y: u32, id: u8) -> (r: [bool; 9])
        requires
            self.wf(),
            x < self.spec_width(),
            y < self.spec_height(),
        ensures
            r@ == self.neighborhood_spec(x as int, y as int, id),
    {
        let mut arr = [false; 9];
        let mut i: usize = 0;
        while i < 3
            invariant
                self.wf(),
                x < self.spec_width(),
                y < self.spec_height(),
                i <= 3,
                arr@.len() == 9,
                forall|k: int| 0 <= k < 3 * i ==> #[trigger] arr@[k] == self.filled_at(
                    x + col_offset(k),
                    y + row_offset(k),
                    id,
                ),
            decreases 3 - i,
        {
            let row: i64 = y as i64 + i as i64 - 1;
            let mut j: usize = 0;
            while j < 3
                invariant
                    self.wf(),
                    x < self.spec_width(),
                    y < self.spec_height(),
                    i < 3,
                    j <= 3,
                    row == y + i - 1,
                    arr@.len() == 9,
                    forall|k: int| 0 <= k < 3 * i + j ==> #[trigger] arr@[k] == self.filled_at(
                        x + col_offset(k),
                        y + row_offset(k),
                        id,
                    ),
                decreases 3 - j,
            {
                let col: i64 = x as i64 + j as i64 - 1;
                let k: usize = 3 * i + j;
                assert(col_offset(k as int) == j - 1 && row_offset(k as int) == i - 1);
                let filled = if row < 0 || row >= self.h as i64 || col < 0 || col >= self.w as i64 {
                    false
                } else {
                    assert(self@[row as int] == self.cells@[row as int]@);
                    self.cells[row as usize][col as usize] == id
                };
                arr[k] = filled;
                j = j + 1;
            }
            i = i + 1;
        }
        assert(arr@ =~= self.neighborhood_spec(x as int, y as int, id));
        arr
    }

    pub fn width(&self) -> (r: u32)
        ensures
            r == self.spec_width(),
    {
        self.w
    }

    pub fn height(&self) -> (r: u32)
        ensures
            r == self.spec_height(),
    {
        self.h
    }

    /// The state of the cell at column `x`, row `y`.
    pub fn cell(&self, x: u32, y: u32) -> (r: u8)
        requires
            self.wf(),
            x < self.spec_width(),
            y < self.spec_height(),
        ensures
            r == self@[y as int][x as int],
    {
        assert(self@[y as int] == self.cells@[y as int]@);
        self.cells[y as usize][x as usize]
    }
}

/// Off-grid positions of a neighborhood are never filled: for a cell `(x, y)`
/// of a valid grid, a position whose column or row falls outside the grid reads false.
pub proof fn lemma_off_grid_positions_empty(g: TerrainGrid, x: int, y: int, id: u8, k: int)
    requires
        g.wf(),
        0 <= x < g.spec_width(),
        0 <= y < g.spec_height(),
        0 <= k < 9,
        !(0 <= x + col_offset(k) < g.spec_width()) || !(0 <= y + row_offset(k) < g.spec_height()),
    ensures
        !g.neighborhood_spec(x, y, id)[k],
{
}

} // verus!
