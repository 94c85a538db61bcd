use sketches::grid::{CenteredGrid, InsetGrid};

#[test]
fn inset_spacing_exact() {
    // The scenario grid: 3 columns, 4 rows, inset convention.
    let g = InsetGrid::new(800, 600, 3, 4);
    let den = g.den();
    // dx * (nx + 1) == width and dy * (ny + 1) == height, exactly.
    assert_eq!(g.dx_num() * 4, 800 * den);
    assert_eq!(g.dy_num() * 5, 600 * den);
    // First and last column centers sit one pitch from each edge.
    assert_eq!(g.x_num(0), g.dx_num());
    assert_eq!(800 * den - g.x_num(2), g.dx_num());
    // Column coordinates: dx * (i + 1).
    assert_eq!(g.x_num(1), 2 * g.dx_num());
    assert_eq!(g.y_num(0), g.dy_num());
    assert_eq!(g.dyh_num() * 2, g.dy_num());
}

#[test]
fn centered_spacing_exact() {
    let g = CenteredGrid::new(1000, 700, 8, 5);
    let den = g.den();
    // dw * nw == width, exactly.
    let dw_num = 1000 * den / 8;
    assert_eq!(dw_num * 8, 1000 * den);
    // The first sample sits half a pitch from the edge.
    assert_eq!(2 * g.x_num(0), dw_num);
    // Samples step by exactly one pitch.
    assert_eq!(g.x_num(1) - g.x_num(0), dw_num);
    assert_eq!(g.width_num(), 1000 * den);
}

#[test]
fn grid_overlay_lines() {
    let g = InsetGrid::new(400, 400, 3, 2);
    let cols = g.column_nums();
    let rows = g.row_nums();
    assert_eq!(cols.len(), 3);
    assert_eq!(rows.len(), 2);
    assert_eq!(cols[0], g.x_num(0));
    assert_eq!(cols[2], g.x_num(2));
    assert_eq!(rows[1], g.y_num(1));
}
