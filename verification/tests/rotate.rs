use smol_dfr::rotate::{rotate_and_convert, rotate_and_convert_into, unpremultiply_channel};

/// Helper: create a premultiplied BGRA pixel, as the renderer writes it.
fn px(b: u8, g: u8, r: u8, a: u8) -> [u8; 4] {
    [b, g, r, a]
}

/// Build a flat BGRA buffer from a 2D array of pixels (row-major).
fn build_src(rows: &[&[[u8; 4]]]) -> Vec<u8> {
    rows.iter()
        .flat_map(|row| row.iter().flat_map(|p| p.iter().copied()))
        .collect()
}

/// Read a BGRX pixel from output buffer at (x, y) with given stride.
fn read_dst(buf: &[u8], x: usize, y: usize, stride: usize) -> (u8, u8, u8, u8) {
    let idx = (y * stride + x) * 4;
    (buf[idx], buf[idx + 1], buf[idx + 2], buf[idx + 3])
}

#[test]
fn test_4x3_rotation_layout() {
    let row0: &[[u8; 4]] = &[
        px(10, 20, 30, 255),
        px(11, 21, 31, 255),
        px(12, 22, 32, 255),
        px(13, 23, 33, 255),
    ];
    let row1: &[[u8; 4]] = &[
        px(40, 50, 60, 255),
        px(41, 51, 61, 255),
        px(42, 52, 62, 255),
        px(43, 53, 63, 255),
    ];
    let row2: &[[u8; 4]] = &[
        px(70, 80, 90, 255),
        px(71, 81, 91, 255),
        px(72, 82, 92, 255),
        px(73, 83, 93, 255),
    ];
    let src = build_src(&[row0, row1, row2]);

    let src_w = 4;
    let src_h = 3;
    let dst_w = 3;
    let dst_h = 4;

    let out = rotate_and_convert(&src, src_w, src_h, dst_w, dst_h);
    assert_eq!(out.len(), dst_w * dst_h * 4);

    let (b, g, r, x) = read_dst(&out, 2, 0, dst_w);
    assert_eq!((b, g, r, x), (10, 20, 30, 0xFF));

    let (b, g, r, x) = read_dst(&out, 0, 3, dst_w);
    assert_eq!((b, g, r, x), (73, 83, 93, 0xFF));

    let (b, g, r, x) = read_dst(&out, 1, 1, dst_w);
    assert_eq!((b, g, r, x), (41, 51, 61, 0xFF));
}

#[test]
fn test_transparent_pixels_produce_black() {
    let row: &[[u8; 4]] = &[px(0, 0, 0, 0), px(128, 64, 32, 0)];
    let src = build_src(&[row]);

    let out = rotate_and_convert(&src, 2, 1, 1, 2);
    let (b, g, r, x) = read_dst(&out, 0, 0, 1);
    assert_eq!((r, g, b, x), (0, 0, 0, 0xFF));

    let (b, g, r, x) = read_dst(&out, 0, 1, 1);
    assert_eq!((r, g, b, x), (0, 0, 0, 0xFF));
}

#[test]
fn test_opaque_pixels_passthrough() {
    let row: &[[u8; 4]] = &[px(200, 100, 50, 255)];
    let src = build_src(&[row]);

    let out = rotate_and_convert(&src, 1, 1, 1, 1);
    let (b, g, r, x) = read_dst(&out, 0, 0, 1);
    assert_eq!((b, g, r, x), (200, 100, 50, 0xFF));
}

#[test]
fn test_semitransparent_unpremultiply() {
    let row: &[[u8; 4]] = &[px(128, 0, 0, 128)];
    let src = build_src(&[row]);

    let out = rotate_and_convert(&src, 1, 1, 1, 1);
    let (b, g, r, x) = read_dst(&out, 0, 0, 1);
    assert!(b >= 254, "b should be ~255 after unpremultiply, got {b}");
    assert_eq!((g, r, x), (0, 0, 0xFF));

    let row2: &[[u8; 4]] = &[px(64, 32, 16, 128)];
    let src2 = build_src(&[row2]);
    let out2 = rotate_and_convert(&src2, 1, 1, 1, 1);
    let (b2, g2, r2, x2) = read_dst(&out2, 0, 0, 1);
    assert!((127..=129).contains(&b2), "b should be ~128, got {b2}");
    assert!((63..=65).contains(&g2), "g should be ~64, got {g2}");
    assert!((31..=33).contains(&r2), "r should be ~32, got {r2}");
    assert_eq!(x2, 0xFF);
}

#[test]
fn test_output_dimensions_transposed() {
    let row0: &[[u8; 4]] = &[px(0, 0, 0, 255); 5];
    let row1: &[[u8; 4]] = &[px(0, 0, 0, 255); 5];
    let src = build_src(&[row0, row1]);

    let dst_w = 2;
    let dst_h = 5;
    let out = rotate_and_convert(&src, 5, 2, dst_w, dst_h);
    assert_eq!(out.len(), dst_w * dst_h * 4);
}

#[test]
fn test_padding_rows_stay_black() {
    let row: &[[u8; 4]] = &[px(255, 128, 64, 255), px(200, 100, 50, 255)];
    let mut src = build_src(&[row]);
    src.extend(vec![0u8; 2 * 4 * 2]);

    let out = rotate_and_convert(&src, 2, 1, 3, 2);
    let (b, g, r, x) = read_dst(&out, 2, 0, 3);
    assert_eq!((b, g, r, x), (255, 128, 64, 0xFF));

    let (b, g, r, x) = read_dst(&out, 1, 0, 3);
    assert_eq!((r, g, b, x), (0, 0, 0, 0));

    let (b, g, r, x) = read_dst(&out, 0, 0, 3);
    assert_eq!((r, g, b, x), (0, 0, 0, 0));
}

#[test]
fn unpremultiply_is_exact_floor() {
    assert_eq!(unpremultiply_channel(64, 128), 127);
    assert_eq!(unpremultiply_channel(128, 128), 255);
    assert_eq!(unpremultiply_channel(1, 3), 85);
    // A channel above alpha saturates instead of wrapping.
    assert_eq!(unpremultiply_channel(200, 100), 255);
}

#[test]
fn rotation_into_short_buffer_leaves_it_alone() {
    let src = vec![1u8, 2, 3, 255];
    let mut dst = vec![7u8; 3];
    rotate_and_convert_into(&src, 1, 1, 1, 1, &mut dst);
    assert_eq!(dst, vec![7u8, 7, 7]);
}

#[test]
fn rotation_into_keeps_bytes_past_the_frame() {
    let src = vec![1u8, 2, 3, 255];
    let mut dst = vec![9u8; 6];
    rotate_and_convert_into(&src, 1, 1, 1, 1, &mut dst);
    assert_eq!(dst, vec![1u8, 2, 3, 255, 9, 9]);
}

#[test]
fn rotation_of_missing_source_pixel_is_zero() {
    // Source shorter than its stated size: the pixel it lacks stays zero.
    let src = vec![10u8, 20, 30, 255];
    let out = rotate_and_convert(&src, 2, 1, 1, 2);
    assert_eq!(out, vec![10u8, 20, 30, 255, 0, 0, 0, 0]);
}

#[test]
fn rotation_law_source_lands_at_rotated_position() {
    // src_w = 3, src_h = 2, dst_w == src_h: src(sx, sy) -> dst(src_h - 1 - sy, sx)
    let mut src = Vec::new();
    for sy in 0..2u8 {
        for sx in 0..3u8 {
            src.extend_from_slice(&[sx, sy, 100, 255]);
        }
    }
    let out = rotate_and_convert(&src, 3, 2, 2, 3);
    for sy in 0..2usize {
        for sx in 0..3usize {
            let (b, g, r, x) = read_dst(&out, 2 - 1 - sy, sx, 2);
            assert_eq!((b, g, r, x), (sx as u8, sy as u8, 100, 0xFF));
        }
    }
}
