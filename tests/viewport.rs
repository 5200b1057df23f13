use nu_plugin_makeplot::input::{normalize_input, Element, Input, Sample};
use nu_plugin_makeplot::viewport::{compute_viewport, Viewport};

fn samples(points: &[(i128, i128)]) -> Vec<Sample> {
    points.iter().map(|(x, y)| Sample { x: x * 1_000_000, y: y * 1_000_000 }).collect()
}

#[test]
fn squares_get_a_ten_percent_margin() {
    let input = Input::List([0, 1, 4, 9, 16].iter().map(|n| Element::Int(*n)).collect());
    let values = normalize_input(&input).unwrap();
    let v = compute_viewport(&values);
    // -0.4, 4.4, -1.6 and 17.6, in ten-millionths
    assert_eq!(
        v,
        Viewport { min_x: -4_000_000, max_x: 44_000_000, min_y: -16_000_000, max_y: 176_000_000 }
    );
}

#[test]
fn order_of_samples_does_not_matter() {
    let a = samples(&[(3, -1), (0, 5), (7, 2), (1, 1)]);
    let b = samples(&[(1, 1), (7, 2), (3, -1), (0, 5)]);
    assert_eq!(compute_viewport(&a), compute_viewport(&b));
}

#[test]
fn scaling_samples_scales_the_viewport() {
    let a = samples(&[(3, -1), (0, 5), (7, 2)]);
    let b = samples(&[(9, -3), (0, 15), (21, 6)]);
    let va = compute_viewport(&a);
    let vb = compute_viewport(&b);
    assert_eq!(vb.min_x, 3 * va.min_x);
    assert_eq!(vb.max_x, 3 * va.max_x);
    assert_eq!(vb.min_y, 3 * va.min_y);
    assert_eq!(vb.max_y, 3 * va.max_y);
}

#[test]
fn single_sample_gets_one_unit_each_side() {
    let v = compute_viewport(&samples(&[(2, 5)]));
    assert_eq!(
        v,
        Viewport { min_x: 10_000_000, max_x: 30_000_000, min_y: 40_000_000, max_y: 60_000_000 }
    );
}

#[test]
fn flat_series_pads_only_its_zero_extent() {
    let v = compute_viewport(&samples(&[(0, 3), (10, 3)]));
    assert_eq!(
        v,
        Viewport { min_x: -10_000_000, max_x: 110_000_000, min_y: 20_000_000, max_y: 40_000_000 }
    );
}

#[test]
fn fractional_extent_is_exact() {
    let v = compute_viewport(&vec![Sample { x: 0, y: 0 }, Sample { x: 3, y: 7 }]);
    assert_eq!(v, Viewport { min_x: -3, max_x: 33, min_y: -7, max_y: 77 });
}
