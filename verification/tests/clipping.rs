use swr::clip::{clip_pass, clip_polygon, plane_sequence, polygon_degenerate, Plane, MAX_VERTICES};

type Vec4 = [f32; 4];

fn inside(plane: Plane, c: Vec4) -> bool {
    let [x, y, z, w] = c;
    match plane {
        Plane::PositiveW => w >= f32::EPSILON,
        Plane::PositiveX => x <= w,
        Plane::NegativeX => x >= -w,
        Plane::PositiveY => y <= w,
        Plane::NegativeY => y >= -w,
        Plane::PositiveZ => z <= w,
        Plane::NegativeZ => z >= -w,
    }
}

fn intersect_ratio(plane: Plane, prev: Vec4, curr: Vec4) -> f32 {
    let [px, py, pz, pw] = prev;
    let [cx, cy, cz, cw] = curr;
    match plane {
        Plane::PositiveW => (pw - f32::EPSILON) / (pw - cw),
        Plane::PositiveX => (pw - px) / ((pw - px) - (cw - cx)),
        Plane::NegativeX => (pw + px) / ((pw + px) - (cw + cx)),
        Plane::PositiveY => (pw - py) / ((pw - py) - (cw - cy)),
        Plane::NegativeY => (pw + py) / ((pw + py) - (cw + cy)),
        Plane::PositiveZ => (pw - pz) / ((pw - pz) - (cw - cz)),
        Plane::NegativeZ => (pw + pz) / ((pw + pz) - (cw + cz)),
    }
}

fn lerp4(a: Vec4, b: Vec4, t: f32) -> Vec4 {
    [
        a[0] + (b[0] - a[0]) * t,
        a[1] + (b[1] - a[1]) * t,
        a[2] + (b[2] - a[2]) * t,
        a[3] + (b[3] - a[3]) * t,
    ]
}

/// Classification flags and cut vertices of one polygon for one plane, as a
/// driver hands them to the library.
fn round_inputs(plane: Plane, poly: &Vec<Vec4>) -> (Vec<bool>, Vec<Vec4>) {
    let n = poly.len();
    let flags: Vec<bool> = poly.iter().map(|&c| inside(plane, c)).collect();
    let mut cuts: Vec<Vec4> = Vec::new();
    for i in 0..n {
        let prev = if i == 0 { n - 1 } else { i - 1 };
        if flags[prev] != flags[i] {
            let t = intersect_ratio(plane, poly[prev], poly[i]);
            cuts.push(lerp4(poly[prev], poly[i], t));
        } else {
            cuts.push(poly[i]);
        }
    }
    (flags, cuts)
}

/// The full 7-plane chain, ending early once a pass leaves a degenerate
/// polygon.
fn clip_chain(triangle: [Vec4; 3]) -> Vec<Vec4> {
    let mut poly: Vec<Vec4> = triangle.to_vec();
    for plane in plane_sequence() {
        let (flags, cuts) = round_inputs(plane, &poly);
        poly = clip_polygon(&poly, &flags, &cuts);
        assert!(poly.len() <= MAX_VERTICES);
        if polygon_degenerate(poly.len()) {
            return Vec::new();
        }
    }
    poly
}

#[test]
fn plane_order_is_fixed() {
    assert_eq!(
        plane_sequence(),
        vec![
            Plane::PositiveW,
            Plane::PositiveX,
            Plane::NegativeX,
            Plane::PositiveY,
            Plane::NegativeY,
            Plane::PositiveZ,
            Plane::NegativeZ,
        ]
    );
}

#[test]
fn fully_inside_polygon_is_returned_unchanged() {
    let poly = vec![
        [0.1, 0.2, 0.3, 1.0],
        [-0.5, 0.1, 0.0, 1.0],
        [0.3, -0.4, 0.2, 1.0],
    ];
    let flags = vec![true, true, true];
    let cuts = poly.clone();
    let out = clip_polygon(&poly, &flags, &cuts);
    assert_eq!(out, poly);
}

#[test]
fn fully_outside_polygon_clips_to_nothing() {
    let poly = vec![
        [0.0, 0.0, 0.0, -1.0],
        [1.0, 0.0, 0.0, -2.0],
        [0.0, 1.0, 0.0, -0.5],
    ];
    let flags = vec![false, false, false];
    let cuts = poly.clone();
    let out = clip_polygon(&poly, &flags, &cuts);
    assert_eq!(out.len(), 0);
}

#[test]
fn one_vertex_outside_emits_quad_in_order() {
    // Vertex 0 outside: the walk emits the cut of edge 2 -> 0, then the cut
    // of edge 0 -> 1, then vertices 1 and 2, keeping the winding.
    let poly = vec![[10.0, 0.0, 0.0, 1.0], [20.0, 0.0, 0.0, 1.0], [30.0, 0.0, 0.0, 1.0]];
    let flags = vec![false, true, true];
    let cuts = vec![[1.0, 0.0, 0.0, 1.0], [2.0, 0.0, 0.0, 1.0], [3.0, 0.0, 0.0, 1.0]];
    let out = clip_polygon(&poly, &flags, &cuts);
    assert_eq!(
        out,
        vec![[1.0, 0.0, 0.0, 1.0], [2.0, 0.0, 0.0, 1.0], [20.0, 0.0, 0.0, 1.0], [30.0, 0.0, 0.0, 1.0]]
    );
}

#[test]
fn varyings_clip_by_the_same_flags() {
    // The same flags drive a second pass over the attribute payload, so the
    // cut attribute lands in the same slot as the cut coordinate.
    let colors = vec![[1.0f32, 0.0, 0.0], [0.0, 1.0, 0.0], [0.0, 0.0, 1.0]];
    let flags = vec![true, false, true];
    let cuts = vec![[0.5f32, 0.5, 0.0], [0.5, 0.5, 0.0], [0.0, 0.5, 0.5]];
    let out = clip_polygon(&colors, &flags, &cuts);
    assert_eq!(
        out,
        vec![[1.0, 0.0, 0.0], [0.5, 0.5, 0.0], [0.0, 0.5, 0.5], [0.0, 0.0, 1.0]]
    );
}

#[test]
fn one_pass_keeps_coordinates_and_varyings_parallel() {
    // One vertex behind the w plane, with a color attached to each vertex:
    // the pass cuts both arrays at the same slots, by the same flags.
    let coords = vec![
        [0.0, 0.0, 0.0, -1.0],
        [0.0, 0.0, 0.0, 1.0],
        [0.0, 0.0, 0.0, 1.0],
    ];
    let colors = vec![[1.0f32, 0.0, 0.0], [0.0, 1.0, 0.0], [0.0, 0.0, 1.0]];
    let plane = Plane::PositiveW;
    let flags: Vec<bool> = coords.iter().map(|&c| inside(plane, c)).collect();
    assert_eq!(flags, vec![false, true, true]);
    let n = coords.len();
    let mut coord_cuts = Vec::new();
    let mut color_cuts = Vec::new();
    for i in 0..n {
        let prev = if i == 0 { n - 1 } else { i - 1 };
        let t = intersect_ratio(plane, coords[prev], coords[i]);
        coord_cuts.push(lerp4(coords[prev], coords[i], t));
        color_cuts.push([
            colors[prev][0] + (colors[i][0] - colors[prev][0]) * t,
            colors[prev][1] + (colors[i][1] - colors[prev][1]) * t,
            colors[prev][2] + (colors[i][2] - colors[prev][2]) * t,
        ]);
    }
    let (out_coords, out_colors) = clip_pass(&coords, &colors, &flags, &coord_cuts, &color_cuts);
    assert_eq!(out_coords.len(), 4);
    assert_eq!(out_colors.len(), 4);
    // The two cut slots hold interpolated colors, the kept slots the
    // original ones.
    assert_eq!(out_colors[2], [0.0, 1.0, 0.0]);
    assert_eq!(out_colors[3], [0.0, 0.0, 1.0]);
}

#[test]
fn fast_path_triangle_matches_full_chain() {
    // Every vertex satisfies |x|,|y|,|z| <= w, so the trivial-accept copy
    // must agree with the 7-plane chain, vertex for vertex.
    let triangle: [Vec4; 3] = [
        [0.1, 0.2, 0.3, 1.0],
        [-0.5, 0.1, 0.0, 1.0],
        [0.3, -0.4, 0.2, 1.0],
    ];
    for &v in &triangle {
        assert!(v[0].abs() <= v[3] && v[1].abs() <= v[3] && v[2].abs() <= v[3]);
    }
    let out = clip_chain(triangle);
    assert_eq!(out, triangle.to_vec());
}

#[test]
fn triangle_behind_the_camera_is_discarded() {
    // All three w below the positive-w epsilon: the first plane rejects it.
    let out = clip_chain([
        [0.0, 0.0, 0.0, -1.0],
        [1.0, 0.0, 0.0, 0.0],
        [0.0, 1.0, 0.0, -0.5],
    ]);
    assert_eq!(out.len(), 0);
}

#[test]
fn one_vertex_behind_near_w_plane_clips_to_quad() {
    // One vertex at w = -1 behind the near-w plane, two at w = 1: the w pass
    // cuts the two crossing edges and the chain ends with a 4-vertex polygon.
    let out = clip_chain([
        [0.0, 0.0, 0.0, -1.0],
        [0.0, 0.0, 0.0, 1.0],
        [0.0, 0.0, 0.0, 1.0],
    ]);
    assert_eq!(out.len(), 4);
    for v in &out {
        assert!(v[0] == 0.0 && v[1] == 0.0 && v[2] == 0.0);
        assert!(v[3] >= f32::EPSILON && v[3] <= 1.0);
    }
    // The two cut vertices sit exactly on the w = epsilon plane.
    assert_eq!(out[0][3], f32::EPSILON);
    assert_eq!(out[1][3], f32::EPSILON);
    assert_eq!(out[2][3], 1.0);
    assert_eq!(out[3][3], 1.0);
}

#[test]
fn degenerate_count_is_below_three() {
    assert!(polygon_degenerate(0));
    assert!(polygon_degenerate(2));
    assert!(!polygon_degenerate(3));
    assert!(!polygon_degenerate(MAX_VERTICES));
}
