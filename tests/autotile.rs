use tile_map::grid::{TerrainGrid, FILLED, TILE_SIZE};
use tile_map::map::{compose, tile_origins, Placement, TileMap};
use tile_map::selector::{
    Rule, Slot, TileSelector, ATLAS_TILES_NEEDED, BACKGROUND_TILE, FALLBACK_TILE, INTERIOR_TILE,
};

fn grid(rows: &[&[u8]]) -> TerrainGrid {
    TerrainGrid::from_rows(rows.iter().map(|r| r.to_vec()).collect()).expect("valid grid")
}

fn bits(mask: u32) -> [bool; 9] {
    let mut n = [false; 9];
    for k in 0..9 {
        n[k] = mask & (1 << k) != 0;
    }
    n
}

#[test]
fn generated_grid_has_requested_shape_and_binary_cells() {
    for &(w, h) in &[(1u32, 1u32), (5, 3), (20, 20), (7, 1)] {
        let g = TerrainGrid::generate(w, h);
        assert_eq!(g.width(), w);
        assert_eq!(g.height(), h);
        for y in 0..h {
            for x in 0..w {
                assert!(g.cell(x, y) <= 1);
            }
        }
    }
}

#[test]
fn boundary_neighbors_outside_grid_are_empty() {
    let g = grid(&[&[1, 1, 1], &[1, 1, 1], &[1, 1, 1]]);
    assert_eq!(g.neighborhood(0, 0, FILLED), [false, false, false, false, true, true, false, true, true]);
    assert_eq!(g.neighborhood(2, 0, FILLED), [false, false, false, true, true, false, true, true, false]);
    assert_eq!(g.neighborhood(0, 2, FILLED), [false, true, true, false, true, true, false, false, false]);
    assert_eq!(g.neighborhood(2, 2, FILLED), [true, true, false, true, true, false, false, false, false]);
    assert_eq!(g.neighborhood(1, 1, FILLED), [true; 9]);
    let single = grid(&[&[1]]);
    assert_eq!(single.neighborhood(0, 0, FILLED), [false, false, false, false, true, false, false, false, false]);
}

#[test]
fn neighborhood_matches_requested_state() {
    let g = grid(&[&[0, 1], &[1, 0]]);
    assert_eq!(g.neighborhood(0, 0, FILLED), [false, false, false, false, false, true, false, true, false]);
    assert_eq!(g.neighborhood(0, 0, 0), [false, false, false, false, true, false, false, false, true]);
}

#[test]
fn selector_is_total_over_all_neighborhoods() {
    let s = TileSelector::standard();
    for mask in 0..512u32 {
        let t = s.select(&bits(mask));
        assert!(t < ATLAS_TILES_NEEDED);
    }
}

#[test]
fn selector_is_deterministic() {
    let s = TileSelector::standard();
    for mask in 0..512u32 {
        let n = bits(mask);
        assert_eq!(s.select(&n), s.select(&n));
        assert_eq!(s.select(&n), TileSelector::standard().select(&n));
    }
}

#[test]
fn earlier_rule_wins_over_later_match() {
    let any = [Slot::Any; 9];
    let mut centered = [Slot::Any; 9];
    centered[4] = Slot::On;
    let s = TileSelector::from_rules(vec![
        Rule { pattern: centered, tile: 3 },
        Rule { pattern: any, tile: 9 },
    ]);
    assert_eq!(s.select(&[true; 9]), 3);
    assert_eq!(s.select(&[false; 9]), 9);
    let swapped = TileSelector::from_rules(vec![
        Rule { pattern: any, tile: 9 },
        Rule { pattern: centered, tile: 3 },
    ]);
    assert_eq!(swapped.select(&[true; 9]), 9);
}

#[test]
fn empty_table_falls_back() {
    let s = TileSelector::from_rules(Vec::new());
    assert_eq!(s.select(&[true; 9]), FALLBACK_TILE);
    assert_eq!(FALLBACK_TILE, 7);
}

#[test]
fn unmatched_neighborhood_uses_fallback() {
    let n = [false, true, false, true, true, true, true, true, true];
    assert_eq!(TileSelector::standard().select(&n), 7);
}

#[test]
fn empty_center_is_background() {
    let s = TileSelector::standard();
    let n = [true, true, true, true, false, true, true, true, true];
    assert_eq!(s.select(&n), BACKGROUND_TILE);
    assert_eq!(BACKGROUND_TILE, 11);
    for mask in 0..512u32 {
        if mask & (1 << 4) == 0 {
            assert_eq!(s.select(&bits(mask)), BACKGROUND_TILE);
        }
    }
}

#[test]
fn full_neighborhood_is_interior() {
    assert_eq!(TileSelector::standard().select(&[true; 9]), INTERIOR_TILE);
    assert_eq!(INTERIOR_TILE, 7);
}

#[test]
fn edge_and_corner_classes() {
    let s = TileSelector::standard();
    // top edge open
    assert_eq!(s.select(&[false, false, false, true, true, true, true, true, true]), 1);
    // top-left outer corner
    assert_eq!(s.select(&[false, false, false, false, true, true, false, true, true]), 0);
    // isolated cell
    assert_eq!(s.select(&[false, false, false, false, true, false, false, false, false]), 9);
    // vertical corridor
    assert_eq!(s.select(&[false, true, false, false, true, false, false, true, false]), 16);
    // inner corner, bottom-right notch
    assert_eq!(s.select(&[true, true, true, true, true, true, true, true, false]), 25);
}

#[test]
fn every_orientation_selects_its_own_tile() {
    let s = TileSelector::standard();
    let t = true;
    let f = false;
    let cases: [([bool; 9], usize); 11] = [
        ([t, t, t, t, t, t, f, f, f], 13),
        ([f, t, t, f, t, t, f, t, t], 6),
        ([t, t, f, t, t, f, t, t, f], 8),
        ([f, f, f, t, t, f, t, t, f], 2),
        ([f, t, t, f, t, t, f, f, f], 12),
        ([t, t, f, t, t, f, f, f, f], 14),
        ([f, t, t, t, t, t, t, t, t], 18),
        ([t, t, f, t, t, t, t, t, t], 19),
        ([t, t, t, t, t, t, f, t, t], 24),
        ([f, f, f, t, t, t, f, f, f], 4),
        ([f, f, f, f, t, f, f, f, f], 9),
    ];
    for (n, tile) in cases.iter() {
        assert_eq!(s.select(n), *tile);
    }
}

#[test]
fn render_twice_builds_once() {
    let mut m = TileMap::new(6, 4);
    assert!(!m.is_rendered());
    assert!(m.composite().is_none());
    assert!(m.render());
    assert!(m.is_rendered());
    let first: Vec<Placement> = m.composite().unwrap().clone();
    assert_eq!(first.len(), 24);
    assert!(!m.render());
    assert_eq!(m.composite().unwrap(), &first);
    assert_eq!(&compose(m.grid(), &TileSelector::standard()), &first);
}

#[test]
fn two_by_two_scenario() {
    let mut m = TileMap::from_grid(grid(&[&[1, 1], &[1, 0]]));
    assert!(m.render());
    let p = m.composite().unwrap();
    assert_eq!(
        p,
        &vec![
            Placement { x: 0, y: 0, tile: 20 },
            Placement { x: 16, y: 0, tile: 5 },
            Placement { x: 0, y: 16, tile: 22 },
            Placement { x: 16, y: 16, tile: BACKGROUND_TILE },
        ]
    );
    for q in &p[..3] {
        assert_ne!(q.tile, INTERIOR_TILE);
        assert_ne!(q.tile, BACKGROUND_TILE);
    }
}

#[test]
fn composite_offsets_follow_cells() {
    let g = grid(&[&[1, 0, 1], &[0, 0, 0]]);
    let p = compose(&g, &TileSelector::standard());
    assert_eq!(p.len(), 6);
    for y in 0..2u32 {
        for x in 0..3u32 {
            let q = p[(y * 3 + x) as usize];
            assert_eq!((q.x, q.y), (x * TILE_SIZE, y * TILE_SIZE));
        }
    }
    assert_eq!(p[0].tile, 9);
    assert_eq!(p[1].tile, BACKGROUND_TILE);
}

#[test]
fn from_rows_rejects_malformed_grids() {
    assert!(TerrainGrid::from_rows(Vec::new()).is_none());
    assert!(TerrainGrid::from_rows(vec![Vec::new()]).is_none());
    assert!(TerrainGrid::from_rows(vec![vec![1, 0], vec![1]]).is_none());
    assert!(TerrainGrid::from_rows(vec![vec![1, 2]]).is_none());
    assert!(TerrainGrid::from_rows(vec![vec![1, 0], vec![0, 1]]).is_some());
}

#[test]
fn try_new_rejects_bad_dimensions() {
    assert!(TileMap::try_new(0, 5).is_none());
    assert!(TileMap::try_new(5, 0).is_none());
    assert!(TileMap::try_new(u32::MAX, 1).is_none());
    let m = TileMap::try_new(3, 2).unwrap();
    assert_eq!((m.grid().width(), m.grid().height()), (3, 2));
}

#[test]
fn tile_origins_scan_rows_then_columns() {
    assert_eq!(
        tile_origins(64, 32),
        vec![(0, 0), (16, 0), (32, 0), (48, 0), (0, 16), (16, 16), (32, 16), (48, 16)]
    );
    assert_eq!(tile_origins(17, 16), vec![(0, 0), (16, 0)]);
    assert!(tile_origins(0, 16).is_empty());
    assert_eq!(tile_origins(112, 64).len(), ATLAS_TILES_NEEDED);
}
