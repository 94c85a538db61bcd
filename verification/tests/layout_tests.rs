use sketches::burst::burst_params;
use sketches::color::Color;
use sketches::dual::dual_series_layout;
use sketches::nodes::{bernoulli_column, select_nodes, walk_column};
use sketches::ribbon::ribbon_layout;
use sketches::rng::SketchRng;
use sketches::smooth::smooth_cmds;
use sketches::theme::Themes;
use sketches::vline::build_vline;
use sketches::grid::InsetGrid;
use sketches::wires::wires_layout;

/// A store of two palettes of plain colors.
fn test_store() -> Themes {
    let mut data = Vec::new();
    let palettes: [[u32; 5]; 2] = [
        [0x101010, 0xe0e0e0, 0x4d4d4d, 0x808080, 0xb3b3b3],
        [0x332211, 0xddeeff, 0x884422, 0x66aa99, 0x2266cc],
    ];
    for p in palettes.iter() {
        for &c in p.iter() {
            data.extend_from_slice(&c.to_be_bytes());
        }
    }
    Themes::from_bytes(data).unwrap()
}

#[test]
fn node_rows_strictly_increase() {
    let colors = vec![Color::from_rgb(1, 2, 3), Color::from_rgb(4, 5, 6)];
    for seed in 0..32u64 {
        let mut rng = SketchRng::new(seed);
        let col = bernoulli_column(&mut rng, 12, &colors, 1 << 51);
        assert!(!col.is_empty());
        for w in col.windows(2) {
            assert!(w[0].1 < w[1].1);
        }
        for &(_, row) in col.iter() {
            assert!(row < 12);
        }
        let walk = walk_column(&mut rng, 12, &colors);
        assert!(!walk.is_empty());
        assert!(walk.len() <= colors.len());
        for w in walk.windows(2) {
            assert!(w[0].1 < w[1].1);
        }
    }
}

#[test]
fn select_nodes_covers_every_column() {
    let colors = vec![Color::from_rgb(1, 2, 3), Color::from_rgb(4, 5, 6)];
    let mut rng = SketchRng::new(9);
    let nodes = select_nodes(&mut rng, 24, 9, &colors, 1 << 51);
    assert_eq!(nodes.len(), 24);
    for col in nodes.iter() {
        assert!(!col.is_empty());
        assert_eq!(col[0].0, colors[0]);
        for w in col.windows(2) {
            assert!(w[0].1 < w[1].1);
        }
    }
}

#[test]
fn vline_touches_both_margins() {
    let grid = InsetGrid::new(800, 600, 10, 8);
    let colors = vec![Color::from_rgb(1, 2, 3)];
    for seed in 0..16u64 {
        let mut rng = SketchRng::new(seed);
        let col = bernoulli_column(&mut rng, 8, &colors, 1 << 51);
        let x = grid.x_num(3);
        let jr = grid.dx_num() / 20 * 9;
        let pts = build_vline(&mut rng, &grid, jr, x, &col);
        assert!(pts.len() >= 2);
        assert_eq!(pts[0].1, grid.dyh_num());
        assert_eq!(pts[pts.len() - 1].1, grid.y_num(7) + grid.dyh_num());
        // The polyline is fit for the S-curve form.
        let cmds = smooth_cmds(&pts);
        assert_eq!(cmds.len(), pts.len());
    }
}

#[test]
fn wires_layout_is_deterministic() {
    let themes = test_store();
    let mut ra = SketchRng::new(1);
    let mut rb = SketchRng::new(1);
    let a = wires_layout(&mut ra, 1600, 600, &themes);
    let b = wires_layout(&mut rb, 1600, 600, &themes);
    assert_eq!(a.theme_index, b.theme_index);
    assert_eq!(a.bg, b.bg);
    assert_eq!(a.fg, b.fg);
    assert_eq!(a.colors, b.colors);
    assert_eq!(a.grid, b.grid);
    assert_eq!(a.jitter_num, b.jitter_num);
    assert_eq!(a.nodes, b.nodes);
    assert_eq!(a.paths, b.paths);
    assert_eq!(ra, rb);
}

#[test]
fn wires_layout_shape() {
    let themes = test_store();
    let mut rng = SketchRng::new(4);
    let l = wires_layout(&mut rng, 1600, 600, &themes);
    assert!((20..40).contains(&l.grid.nx));
    assert!((5..20).contains(&l.grid.ny));
    assert_eq!(l.nodes.len(), l.grid.nx as usize);
    assert_eq!(l.paths.len(), l.grid.nx as usize);
    assert_eq!(l.colors.len(), 3);
    for p in l.paths.iter() {
        assert_eq!(p[0].1, l.grid.dyh_num());
    }
}

#[test]
fn ribbon_layout_is_deterministic() {
    let themes = test_store();
    let mut ra = SketchRng::new(12);
    let mut rb = SketchRng::new(12);
    let a = ribbon_layout(&mut ra, 1600, 600, &themes);
    let b = ribbon_layout(&mut rb, 1600, 600, &themes);
    assert_eq!(a.pairs, b.pairs);
    assert_eq!(a.path_a, b.path_a);
    assert_eq!(a.path_b, b.path_b);
    assert!((20..80).contains(&a.grid.nw));
    for &(ya, yb) in a.pairs.iter() {
        assert!(ya < yb && yb < a.grid.nh);
    }
    assert_eq!(a.path_a.len(), a.grid.nw as usize);
}

#[test]
fn dual_series_layout_shape() {
    let themes = test_store();
    let mut ra = SketchRng::new(5);
    let mut rb = SketchRng::new(5);
    let a = dual_series_layout(&mut ra, 1600, 600, &themes);
    let b = dual_series_layout(&mut rb, 1600, 600, &themes);
    assert_eq!(a.top.pts, b.top.pts);
    assert_eq!(a.bottom.pts, b.bottom.pts);
    assert_eq!(a.tgrid.nw, a.bgrid.nw);
    assert_eq!(a.top.pts.len(), a.tgrid.nw as usize);
    // Sample x-coordinates strictly increase left to right.
    for w in a.top.pts.windows(2) {
        assert!(w[0].0 < w[1].0);
    }
}

#[test]
fn burst_params_are_deterministic_and_ordered() {
    let themes = test_store();
    let mut ra = SketchRng::new(8);
    let mut rb = SketchRng::new(8);
    let a = burst_params(&mut ra, 1600, 600, &themes);
    let b = burst_params(&mut rb, 1600, 600, &themes);
    assert_eq!(a.ri_mil, b.ri_mil);
    assert_eq!(a.ro_mil, b.ro_mil);
    assert_eq!(a.rt_mil, b.rt_mil);
    assert_eq!(a.spikes, b.spikes);
    // r = 300 canvas units (half the smaller side), ri = 0.4 r.
    assert_eq!(a.ri_mil, 120000);
    assert!(a.ri_mil < a.ro_mil);
    assert!(a.spikes % 2 == 0 && (8..20).contains(&a.spikes));
    assert!((2000..6000).contains(&a.lw_mil));
    assert!((10000..125 * 600).contains(&a.ys_mil));
}
