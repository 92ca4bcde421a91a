use gui_core::hmi::vertex_output::{
    push_fan_indices, push_quad_indices, push_stroke_indices, segment_count, segment_ends,
    DrawListStroke,
};

#[test]
fn quad_is_two_triangles() {
    let mut indices = vec![9u16];
    push_quad_indices(&mut indices, 4);
    assert_eq!(indices, vec![9, 4, 5, 6, 4, 6, 7]);
}

#[test]
fn quad_indices_keep_the_low_sixteen_bits() {
    let mut indices = Vec::new();
    push_quad_indices(&mut indices, 65535);
    assert_eq!(indices, vec![65535, 0, 1, 65535, 1, 2]);
}

#[test]
fn stroke_has_one_quad_per_segment() {
    let mut indices = Vec::new();
    push_stroke_indices(&mut indices, 0, 2);
    assert_eq!(indices, vec![0, 1, 2, 0, 2, 3, 4, 5, 6, 4, 6, 7]);
    let mut none = vec![1u16];
    push_stroke_indices(&mut none, 8, 0);
    assert_eq!(none, vec![1]);
}

#[test]
fn fan_covers_a_convex_polygon() {
    let mut indices = Vec::new();
    push_fan_indices(&mut indices, 10, 5);
    assert_eq!(indices, vec![10, 11, 12, 10, 12, 13, 10, 13, 14]);
    let mut few = Vec::new();
    push_fan_indices(&mut few, 10, 2);
    assert!(few.is_empty());
    push_fan_indices(&mut few, 3, 0);
    assert!(few.is_empty());
}

#[test]
fn open_paths_have_one_segment_fewer() {
    assert_eq!(segment_count(4, DrawListStroke::Open), 3);
    assert_eq!(segment_count(4, DrawListStroke::Closed), 4);
    assert_eq!(segment_ends(4, 1), (1, 2));
    assert_eq!(segment_ends(4, 3), (3, 0));
}
