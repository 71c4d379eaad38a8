use ale_core::mesh::{construct_buffer, parse_indices, ConversionError};

#[test]
fn parse_single_triangle() {
    // A polygon ends at its bitwise-complemented last index: !2 == -3.
    let r = parse_indices(&vec![0, 1, -3]).unwrap();
    assert_eq!(r, vec![0, 1, 2]);
}

#[test]
fn parse_quad_becomes_two_triangles() {
    // !3 == -4 closes the quad 0,1,2,3.
    let r = parse_indices(&vec![0, 1, 2, -4]).unwrap();
    assert_eq!(r, vec![0, 1, 2, 0, 2, 3]);
}

#[test]
fn parse_mixed_polygons() {
    let r = parse_indices(&vec![0, 1, -3, 4, 5, 6, -8]).unwrap();
    assert_eq!(r, vec![0, 1, 2, 4, 5, 6, 4, 6, 7]);
}

#[test]
fn parse_rejects_ngon() {
    let r = parse_indices(&vec![0, 1, 2, 3, -5]);
    assert_eq!(r, Err(ConversionError::NGonNotSupported));
}

#[test]
fn parse_rejects_empty_stream() {
    let r = parse_indices(&vec![]);
    assert_eq!(r, Err(ConversionError::IncompleteLastPoly));
}

#[test]
fn parse_skips_degenerate_and_trailing_runs() {
    // A run of fewer than three vertices is skipped; indices after the
    // last closed polygon are ignored.
    let r = parse_indices(&vec![9, -1, 0, 1, -3, 7, 8]).unwrap();
    assert_eq!(r, vec![0, 1, 2]);
}

#[test]
fn construct_buffer_interleaves_all_channels() {
    let indices = vec![0, 1];
    let positions = vec![1.0f32, 2.0, 3.0, 4.0, 5.0, 6.0];
    let normals = vec![0.1f32, 0.2, 0.3, 0.4, 0.5, 0.6];
    let uvs = vec![10.0f32, 11.0, 12.0, 13.0];
    let buffer = construct_buffer(&indices, &positions, &uvs, &normals, 0.0f32).unwrap();
    assert_eq!(
        buffer.data,
        vec![
            1.0, 2.0, 3.0, 0.1, 0.2, 0.3, 10.0, 11.0,
            4.0, 5.0, 6.0, 0.4, 0.5, 0.6, 12.0, 13.0,
        ]
    );
    assert_eq!(buffer.elements.len(), 3);
    assert_eq!(buffer.elements[0].name, "position");
    assert_eq!(buffer.elements[0].size, 3);
    assert_eq!(buffer.elements[1].name, "normal");
    assert_eq!(buffer.elements[1].size, 3);
    assert_eq!(buffer.elements[2].name, "uv");
    assert_eq!(buffer.elements[2].size, 2);
}

#[test]
fn construct_buffer_pads_missing_channels() {
    let indices = vec![1, 0];
    let positions = vec![1.0f32, 2.0, 3.0, 4.0, 5.0, 6.0];
    let empty: Vec<f32> = vec![];
    let buffer = construct_buffer(&indices, &positions, &empty, &empty, 0.0f32).unwrap();
    assert_eq!(
        buffer.data,
        vec![
            4.0, 5.0, 6.0, 0.0, 0.0, 0.0, 0.0, 0.0,
            1.0, 2.0, 3.0, 0.0, 0.0, 0.0, 0.0, 0.0,
        ]
    );
}
