use raster_outline::{
    fill_grid, hole_grid, sample_channel, sample_points, sample_world, trace, trace_world,
    GridError, SampledWorld, World,
};

/// Builds an RGBA buffer whose first channel is `v` and whose other channels
/// hold noise, so that only the first one can matter.
fn rgba(values: &[u8]) -> Vec<u8> {
    let mut out = Vec::new();
    for &v in values {
        out.push(v);
        out.push(7);
        out.push(200);
        out.push(255);
    }
    out
}

#[test]
fn channel_grid_has_declared_shape_and_first_channel() {
    let data = rgba(&[1, 2, 3, 4, 5, 6]);
    let grid = sample_channel(&data, 3).unwrap();
    assert_eq!(grid, vec![vec![1, 2, 3], vec![4, 5, 6]]);
    let grid = sample_channel(&data, 2).unwrap();
    assert_eq!(grid, vec![vec![1, 2], vec![3, 4], vec![5, 6]]);
}

#[test]
fn empty_buffer_gives_empty_grid() {
    let grid = sample_channel(&[], 4).unwrap();
    assert!(grid.is_empty());
}

#[test]
fn zero_width_is_rejected() {
    let data = rgba(&[1, 2]);
    assert_eq!(sample_channel(&data, 0), Err(GridError::InvalidWidth));
    assert!(matches!(trace_world(0, 2, 128, 128, &data), Err(GridError::InvalidWidth)));
}

#[test]
fn partial_pixel_is_rejected() {
    let data = vec![1u8, 2, 3, 4, 5, 6];
    assert_eq!(sample_channel(&data, 1), Err(GridError::InvalidBufferLength));
    assert!(matches!(trace_world(1, 1, 128, 128, &data), Err(GridError::InvalidBufferLength)));
}

#[test]
fn short_last_row_is_rejected() {
    let data = rgba(&[1, 2, 3, 4, 5]);
    assert_eq!(sample_channel(&data, 2), Err(GridError::InvalidBufferLength));
}

#[test]
fn declared_height_must_match() {
    let data = rgba(&[1, 2, 3, 4, 5, 6]);
    assert!(matches!(trace_world(3, 3, 128, 128, &data), Err(GridError::InvalidBufferLength)));
    assert!(matches!(
        sample_world(3, 1, 128, 128, 1, &data),
        Err(GridError::InvalidBufferLength)
    ));
    assert!(trace_world(3, 2, 128, 128, &data).is_ok());
}

#[test]
fn fill_grid_marks_cells_at_or_above_threshold() {
    let grid = vec![vec![0u8, 127, 128], vec![129, 255, 10]];
    assert_eq!(fill_grid(&grid, 128), vec![vec![0, 0, 1], vec![1, 1, 0]]);
    assert_eq!(fill_grid(&grid, 0), vec![vec![1, 1, 1], vec![1, 1, 1]]);
}

#[test]
fn hole_grid_marks_cells_below_threshold() {
    let grid = vec![vec![0u8, 127, 128], vec![129, 255, 10]];
    assert_eq!(hole_grid(&grid, 128), vec![vec![1, 1, 0], vec![0, 0, 1]]);
    assert_eq!(hole_grid(&grid, 0), vec![vec![0, 0, 0], vec![0, 0, 0]]);
}

#[test]
fn thresholds_act_independently_on_the_same_cells() {
    let grid = vec![vec![100u8; 3]; 2];
    assert_eq!(fill_grid(&grid, 150), vec![vec![0; 3]; 2]);
    assert_eq!(hole_grid(&grid, 50), vec![vec![0; 3]; 2]);
    assert_eq!(fill_grid(&grid, 50), vec![vec![1; 3]; 2]);
    assert_eq!(hole_grid(&grid, 150), vec![vec![1; 3]; 2]);
}

#[test]
fn sampling_all_matching_grid_emits_every_visited_cell() {
    let grid = vec![vec![0i8; 4]; 5];
    let points = sample_points(&grid, 2, 0);
    assert_eq!(points.len(), 2 * 3 * 2);
    assert_eq!(points, vec![0, 0, 0, 2, 2, 0, 2, 2, 4, 0, 4, 2]);
}

#[test]
fn sampling_grid_without_marker_emits_nothing() {
    let grid = vec![vec![1i8; 4]; 5];
    assert!(sample_points(&grid, 2, 0).is_empty());
    assert!(sample_points(&grid, 3, 0).is_empty());
}

#[test]
fn sampling_with_stride_one_visits_every_cell() {
    let grid = vec![vec![1i8, 0], vec![0, 1]];
    assert_eq!(sample_points(&grid, 1, 1), vec![0, 0, 1, 1]);
    assert_eq!(sample_points(&grid, 1, 0), vec![0, 1, 1, 0]);
}

#[test]
fn sampling_with_stride_larger_than_grid_visits_origin_only() {
    let grid = vec![vec![1i8, 1, 1], vec![1, 1, 1]];
    assert_eq!(sample_points(&grid, 10, 1), vec![0, 0]);
}

#[test]
fn trace_outlines_diagonal_cells() {
    let bits = vec![vec![1i8, 0, 0], vec![0, 1, 0], vec![0, 0, 1]];
    assert_eq!(trace(bits), "M0 0H1V1H0ZM1 1H2V2H1ZM2 2H3V3H2Z");
}

#[test]
fn trace_of_empty_or_clear_grid_is_empty() {
    assert_eq!(trace(Vec::new()), "");
    assert_eq!(trace(vec![Vec::new(), Vec::new()]), "");
    assert_eq!(trace(vec![vec![0i8; 3]; 2]), "");
}

#[test]
fn fill_grid_reproduces_binary_pattern() {
    let pattern = [[1u8, 1, 0], [1, 1, 1], [0, 1, 1]];
    let mut values = Vec::new();
    for row in pattern.iter() {
        for &bit in row.iter() {
            values.push(if bit == 1 { 255 } else { 0 });
        }
    }
    let data = rgba(&values);
    let grid = sample_channel(&data, 3).unwrap();
    let fills = fill_grid(&grid, 128);
    assert_eq!(fills, vec![vec![1, 1, 0], vec![1, 1, 1], vec![0, 1, 1]]);
    let world = trace_world(3, 3, 128, 128, &data).unwrap();
    assert_eq!(world.path(), trace(fills));
}

#[test]
fn saturated_buffer_is_one_filled_rectangle_without_holes() {
    let data = vec![255u8; 6 * 5 * 4];
    let grid = sample_channel(&data, 6).unwrap();
    assert_eq!(fill_grid(&grid, 128), vec![vec![1i8; 6]; 5]);
    assert_eq!(hole_grid(&grid, 128), vec![vec![0i8; 6]; 5]);
    let world = trace_world(6, 5, 128, 128, &data).unwrap();
    assert_eq!(world.path(), "M0 0H6V5H0Z");
    assert_eq!(world.holes(), "");
    let sampled = sample_world(6, 5, 128, 128, 2, &data).unwrap();
    assert_eq!(sampled.path(), "M0 0H6V5H0Z");
    assert!(sampled.holes().is_empty());
}

#[test]
fn dark_buffer_has_no_fill_and_every_sampled_hole() {
    let data = rgba(&[0u8; 6]);
    let sampled = sample_world(3, 2, 128, 128, 2, &data).unwrap();
    assert_eq!(sampled.path(), "");
    assert_eq!(sampled.holes(), vec![0, 0, 0, 2]);
    let world = trace_world(3, 2, 128, 128, &data).unwrap();
    assert_eq!(world.path(), "");
    assert_eq!(world.holes(), "M0 0H3V2H0Z");
}

#[test]
fn empty_image_has_empty_outlines() {
    let world = trace_world(4, 0, 128, 128, &[]).unwrap();
    assert_eq!(world.path(), "");
    assert_eq!(world.holes(), "");
}

#[test]
fn pipeline_runs_are_identical() {
    let data = rgba(&[0, 255, 40, 255, 0, 90, 255, 255, 0, 30, 255, 0]);
    let a = trace_world(4, 3, 128, 64, &data).unwrap();
    let b = trace_world(4, 3, 128, 64, &data).unwrap();
    assert_eq!(a.path(), b.path());
    assert_eq!(a.holes(), b.holes());
    let a: SampledWorld = sample_world(4, 3, 128, 64, 1, &data).unwrap();
    let b: SampledWorld = sample_world(4, 3, 128, 64, 1, &data).unwrap();
    assert_eq!(a.path(), b.path());
    assert_eq!(a.holes(), b.holes());
}

#[test]
fn world_accessors_keep_their_fields() {
    let mut world = World::new("M0 0H1V1H0Z".to_string(), String::new());
    assert_eq!(world.path(), "M0 0H1V1H0Z");
    assert_eq!(world.holes(), "");
    world.set_holes("M1 1H2V2H1Z".to_string());
    assert_eq!(world.holes(), "M1 1H2V2H1Z");
    assert_eq!(world.path(), "M0 0H1V1H0Z");
    world.set_path(String::new());
    assert_eq!(world.path(), "");
    assert_eq!(world.holes(), "M1 1H2V2H1Z");
}
