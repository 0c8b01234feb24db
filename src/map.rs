use vstd::prelude::*;

verus! {

use crate::grid::{valid_dims, TerrainGrid, FILLED, TILE_SIZE};
use crate::selector::{
    lemma_selection_in_atlas, select_spec, standard_rules, Slot, TileSelector, ATLAS_TILES_NEEDED,
};

/// One tile of a composite: the atlas index drawn at pixel offset `(x, y)`.
#[derive(Clone, Copy, Debug, PartialEq, Eq, Structural)]
pub struct Placement {
    pub x: u32,
    pub y: u32,
    pub tile: usize,
}

/// Position of cell `(x, y)` in a row-major sequence with `w` columns.
pub open spec fn cell_index(w: int, x: int, y: int) -> int {
    y * w + x
}

proof fn lemma_cell_index_in_row(w: int, x: int, y: int)
    requires
        0 <= x,
        0 <= y,
    ensures
        y * w <= cell_index(w, x, y),
        x < w ==> cell_index(w, x, y) < (y + 1) * w,
        (y + 1) * w == y * w + w,
{
    assert((y + 1) * w == y * w + w) by (nonlinear_arith);
}

proof fn lemma_rows_ordered(w: int, y0: int, y1: int)
    requires
        0 < w,
        0 <= y0 < y1,
    ensures
        (y0 + 1) * w <= y1 * w,
{
    assert((y0 + 1) * w <= y1 * w) by (nonlinear_arith)
        requires
            0 < w,
            y0 + 1 <= y1,
    ;
}

/// The placement that the compositor draws for cell `(x, y)`.
pub open spec fn placement_of(g: TerrainGrid, rules: Seq<(Seq<Slot>, usize)>, x: int, y: int) -> Placement {
    Placement {
        x: (x * TILE_SIZE) as u32,
        y: (y * TILE_SIZE) as u32,
        tile: select_spec(rules, g.neighborhood_spec(x, y, FILLED)),
    }
}

/// `p` holds one placement per cell of `g`, in row-major order, each the tile
/// that `rules` selects for the cell's filled-neighborhood, at the cell's pixel offset.
pub open spec fn composes(g: TerrainGrid, rules: Seq<(Seq<Slot>, usize)>, p: Seq<Placement>) -> bool {
    let w = g.spec_width() as int;
    let h = g.spec_height() as int;
    &&& p.len() == w * h
    &&& forall|x: int, y: int|
        0 <= x < w && 0 <= y < h ==> p[#[trigger] cell_index(w, x, y)] == placement_of(g, rules, x, y)
}

/// Every cell of `grid`, row by row: its neighborhood of filled cells, the tile
/// that `selector` picks for it, and the pixel offset where that tile is drawn.
pub fn compose(grid: &TerrainGrid, selector: &TileSelector) -> (r: Vec<Placement>)
    requires
        grid.wf(),
    ensures
        composes(*grid, selector@, r@),
{
    let w = grid.width();
    let h = grid.height();
    let ghost wi = w as int;
    let mut out: Vec<Placement> = Vec::new();
    let mut y: u32 = 0;
    while y < h
        invariant
            grid.wf(),
            w == grid.spec_width(),
            h == grid.spec_height(),
            wi == w as int,
            y <= h,
            out@.len() == y * wi,
            forall|xx: int, yy: int|
                0 <= xx < wi && 0 <= yy < y ==> out@[#[trigger] cell_index(wi, xx, yy)]
                    == placement_of(*grid, selector@, xx, yy),
        decreases h - y,
    {
        let mut x: u32 = 0;
        proof {
            lemma_cell_index_in_row(wi, 0, y as int);
        }
        while x < w
            invariant
                grid.wf(),
                w == grid.spec_width(),
                h == grid.spec_height(),
                wi == w as int,
                y < h,
                x <= w,
                out@.len() == y * wi + x,
                forall|xx: int, yy: int|
                    0 <= xx < wi && 0 <= yy < y ==> out@[#[trigger] cell_index(wi, xx, yy)]
                        == placement_of(*grid, selector@, xx, yy),
                forall|xx: int|
                    0 <= xx < x ==> out@[#[trigger] cell_index(wi, xx, y as int)]
                        == placement_of(*grid, selector@, xx, y as int),
            decreases w - x,
        {
            let n = grid.neighborhood(x, y, FILLED);
            let tile = selector.select(&n);
            let ghost before = out@;
            out.push(Placement { x: x * TILE_SIZE, y: y * TILE_SIZE, tile });
            proof {
                assert forall|xx: int, yy: int|
                    0 <= xx < wi && 0 <= yy < y implies out@[#[trigger] cell_index(wi, xx, yy)]
                        == placement_of(*grid, selector@, xx, yy) by {
                    lemma_cell_index_in_row(wi, xx, yy);
                    lemma_rows_ordered(wi, yy, y as int);
                    assert(out@[cell_index(wi, xx, yy)] == before[cell_index(wi, xx, yy)]);
                }
                assert forall|xx: int|
                    0 <= xx < x + 1 implies out@[#[trigger] cell_index(wi, xx, y as int)]
                        == placement_of(*grid, selector@, xx, y as int) by {
                    if xx < x {
                        assert(out@[cell_index(wi, xx, y as int)] == before[cell_index(wi, xx, y as int)]);
                    }
                }
            }
            x = x + 1;
        }
        proof {
            lemma_cell_index_in_row(wi, 0, y as int);
        }
        y = y + 1;
    }
    proof {
        assert(h as int * wi == wi * h as int) by (nonlinear_arith);
    }
    out
}

/// Number of whole or partial tiles that fit along `len` pixels.
pub open spec fn tiles_along(len: nat) -> nat {
    ((len + TILE_SIZE - 1) / TILE_SIZE as int) as nat
}

/// Top-left pixel of each tile of a `sheet_w` x `sheet_h` tile sheet, sheet rows
/// outer and sheet columns inner; the atlas index of a tile is its position here.
pub fn tile_origins(sheet_w: u32, sheet_h: u32) -> (r: Vec<(u32, u32)>)
    ensures
        r@.len() == tiles_along(sheet_w as nat) * tiles_along(sheet_h as nat),
        forall|c: int, row: int|
            0 <= c < tiles_along(sheet_w as nat) && 0 <= row < tiles_along(sheet_h as nat)
                ==> r@[#[trigger] cell_index(tiles_along(sheet_w as nat) as int, c, row)] == (
                (c * TILE_SIZE) as u32,
                (row * TILE_SIZE) as u32,
            ),
{
    let cols: u32 = sheet_w / TILE_SIZE + if sheet_w % TILE_SIZE == 0 { 0 } else { 1 };
    let rows: u32 = sheet_h / TILE_SIZE + if sheet_h % TILE_SIZE == 0 { 0 } else { 1 };
    assert(cols == tiles_along(sheet_w as nat));
    assert(rows == tiles_along(sheet_h as nat));
    let ghost ci = cols as int;
    let mut out: Vec<(u32, u32)> = Vec::new();
    let mut row: u32 = 0;
    while row < rows
        invariant
            ci == cols as int,
            cols == tiles_along(sheet_w as nat),
            rows == tiles_along(sheet_h as nat),
            row <= rows,
            out@.len() == row * ci,
            forall|c: int, rr: int|
                0 <= c < ci && 0 <= rr < row ==> out@[#[trigger] cell_index(ci, c, rr)] == (
                    (c * TILE_SIZE) as u32,
                    (rr * TILE_SIZE) as u32,
                ),
        decreases rows - row,
    {
        let mut c: u32 = 0;
        proof {
            lemma_cell_index_in_row(ci, 0, row as int);
        }
        while c < cols
            invariant
                ci == cols as int,
                cols == tiles_along(sheet_w as nat),
                rows == tiles_along(sheet_h as nat),
                row < rows,
                c <= cols,
                out@.len() == row * ci + c,
                forall|cc: int, rr: int|
                    0 <= cc < ci && 0 <= rr < row ==> out@[#[trigger] cell_index(ci, cc, rr)] == (
                        (cc * TILE_SIZE) as u32,
                        (rr * TILE_SIZE) as u32,
                    ),
                forall|cc: int|
                    0 <= cc < c ==> out@[#[trigger] cell_index(ci, cc, row as int)] == (
                        (cc * TILE_SIZE) as u32,
                        (row * TILE_SIZE) as u32,
                    ),
            decreases cols - c,
        {
            let ghost before = out@;
            out.push((c * TILE_SIZE, row * TILE_SIZE));
            proof {
                assert forall|cc: int, rr: int|
                    0 <= cc < ci && 0 <= rr < row implies out@[#[trigger] cell_index(ci, cc, rr)] == (
                        (cc * TILE_SIZE) as u32,
                        (rr * TILE_SIZE) as u32,
                    ) by {
                    lemma_cell_index_in_row(ci, cc, rr);
                    lemma_rows_ordered(ci, rr, row as int);
                    assert(out@[cell_index(ci, cc, rr)] == before[cell_index(ci, cc, rr)]);
                }
                assert forall|cc: int|
                    0 <= cc < c + 1 implies out@[#[trigger] cell_index(ci, cc, row as int)] == (
                        (cc * TILE_SIZE) as u32,
                        (row * TILE_SIZE) as u32,
                    ) by {
                    if cc < c {
                        assert(out@[cell_index(ci, cc, row as int)] == before[cell_index(ci, cc, row as int)]);
                    }
                }
            }
            c = c + 1;
        }
        proof {
            lemma_cell_index_in_row(ci, 0, row as int);
        }
        row = row + 1;
    }
    proof {
        assert(rows as int * ci == ci * rows as int) by (nonlinear_arith);
    }
    out
}

/// A terrain map: its grid, the rule table that picks tiles, and, once built,
/// the cached composite.
pub struct TileMap {
    grid: TerrainGrid,
    selector: TileSelector,
    composite: Option<Vec<Placement>>,
}

/// What one call of `TileMap::render` does: a map without a composite gets the
/// composite of its grid (`fresh`); a map that has one is left exactly as it was.
pub open spec fn render_step(before: TileMap, after: TileMap, fresh: bool) -> bool {
    &&& after.spec_grid() == before.spec_grid()
    &&& after.spec_rules() == before.spec_rules()
    &&& if before.spec_composite() is Some {
        &&& !fresh
        &&& after.spec_composite() == before.spec_composite()
    } else {
        &&& fresh
        &&& after.spec_composite() matches Some(p) && composes(before.spec_grid(), before.spec_rules(), p)
    }
}

impl TileMap {
    pub closed spec fn spec_grid(&self) -> TerrainGrid {
        self.grid
    }

    pub closed spec fn spec_rules(&self) -> Seq<(Seq<Slot>, usize)> {
        self.selector@
    }

    pub closed spec fn spec_composite(&self) -> Option<Seq<Placement>> {
        match self.composite {
            Some(v) => Some(v@),
            None => None,
        }
    }

    pub open spec fn wf(&self) -> bool {
        self.spec_grid().wf()
    }

    /// A map of `w` x `h` cells with a freshly generated random grid, the
    /// standard rule table, and no composite yet.
    pub fn new(w: u32, h: u32) -> (m: TileMap)
        requires
            valid_dims(w as nat, h as nat),
        ensures
            m.wf(),
            m.spec_grid().spec_width() == w,
            m.spec_grid().spec_height() == h,
            m.spec_rules() == standard_rules(),
            m.spec_composite() is None,
    {
        TileMap::from_grid(TerrainGrid::generate(w, h))
    }

    /// `TileMap::new(w, h)` when the dimensions are valid; `None` otherwise.
    pub fn try_new(w: u32, h: u32) -> (r: Option<TileMap>)
        ensures
            r is Some <==> valid_dims(w as nat, h as nat),
            r matches Some(m) ==> {
                &&& m.wf()
                &&& m.spec_grid().spec_width() == w
                &&& m.spec_grid().spec_height() == h
                &&& m.spec_rules() == standard_rules()
                &&& m.spec_composite() is None
            },
    {
        if w == 0 || h == 0 || w > u32::MAX / TILE_SIZE || h > u32::MAX / TILE_SIZE {
            None
        } else {
            Some(TileMap::new(w, h))
        }
    }

    /// A map over the given grid, with the standard rule table and no composite yet.
    pub fn from_grid(grid: TerrainGrid) -> (m: TileMap)
        requires
            grid.wf(),
        ensures
            m.wf(),
            m.spec_grid() == grid,
            m.spec_rules() == standard_rules(),
            m.spec_composite() is None,
    {
        TileMap { grid, selector: TileSelector::standard(), composite: None }
    }

    /// Builds and caches the composite unless it is already cached; returns
    /// whether this call built it.
    pub fn render(&mut self) -> (fresh: bool)
        requires
            old(self).wf(),
        ensures
            final(self).wf(),
            render_step(*old(self), *final(self), fresh),
    {
        if self.composite.is_some() {
            return false;
        }
        let placements = compose(&self.grid, &self.selector);
        self.composite = Some(placements);
        true
    }

    pub fn is_rendered(&self) -> (r: bool)
        ensures
            r == self.spec_composite() is Some,
    {
        self.composite.is_some()
    }

    /// The cached composite, if it has been built.
    pub fn composite(&self) -> (r: Option<&Vec<Placement>>)
        ensures
            r is Some == self.spec_composite() is Some,
            r matches Some(v) ==> self.spec_composite() == Some(v@),
    {
        match &self.composite {
            Some(v) => Some(v),
            None => None,
        }
    }

    pub fn grid(&self) -> (r: &TerrainGrid)
        ensures
            *r == self.spec_grid(),
    {
        &self.grid
    }
}

/// Compositing is one-shot: after a first `render`, a second one does no work,
/// changes nothing, and the cached composite is the one the first built from
/// the map's grid.
pub proof fn lemma_render_once(m0: TileMap, m1: TileMap, m2: TileMap, first: bool, second: bool)
    requires
        m0.spec_composite() is None,
        render_step(m0, m1, first),
        render_step(m1, m2, second),
    ensures
        first,
        !second,
        m2.spec_grid() == m1.spec_grid(),
        m2.spec_composite() == m1.spec_composite(),
        m2.spec_composite() matches Some(p) && composes(m0.spec_grid(), m0.spec_rules(), p),
{
}

/// Every tile of a composite built with the standard table resolves in an atlas
/// of `ATLAS_TILES_NEEDED` tiles.
pub proof fn lemma_composite_tiles_in_atlas(g: TerrainGrid, p: Seq<Placement>)
    requires
        g.wf(),
        composes(g, standard_rules(), p),
    ensures
        forall|x: int, y: int|
            0 <= x < g.spec_width() && 0 <= y < g.spec_height()
                ==> p[#[trigger] cell_index(g.spec_width() as int, x, y)].tile < ATLAS_TILES_NEEDED,
{
    assert forall|x: int, y: int|
        0 <= x < g.spec_width() && 0 <= y < g.spec_height()
            implies p[#[trigger] cell_index(g.spec_width() as int, x, y)].tile < ATLAS_TILES_NEEDED by {
        lemma_selection_in_atlas(g.neighborhood_spec(x, y, FILLED));
    }
}

} // verus!
