use movie_wallpaper::layout::{LayoutCalculator, LayoutError, ThumbnailLayout};

// Display 1920x1080, 12 frames, source ratio 16:9: the calculator is a
// pure function, so this layout is pinned exactly.
#[test]
fn scenario_1920x1080_12_frames_16_9() {
    let layout = LayoutCalculator::compute(1920, 1080, 12, 16, 9).unwrap();
    assert_eq!(layout.cell_width, 409);
    assert_eq!(layout.cell_height, 230);
    assert_eq!(layout.margin_x, 16);
    assert_eq!(layout.margin_y, 36);
    assert_eq!(layout.columns, 4);
}

// Same inputs always yield the identical output.
#[test]
fn compute_is_deterministic() {
    let a = LayoutCalculator::compute(1920, 1080, 12, 16, 9).unwrap();
    let b = LayoutCalculator::compute(1920, 1080, 12, 16, 9).unwrap();
    assert_eq!(a, b);
}

// The frame ratio 16:9 and the full frame size 1920x1080 are the same
// shape, and every formula scales exactly, so the layouts agree.
#[test]
fn ratio_scale_invariance_on_example() {
    let a = LayoutCalculator::compute(1920, 1080, 12, 16, 9).unwrap();
    let b = LayoutCalculator::compute(1920, 1080, 12, 1920, 1080).unwrap();
    assert_eq!(a, b);
}

// The cell preserves the source aspect ratio to within one rounding
// unit: |2 * (cell_width * frame_h - cell_height * frame_w)| <= frame_h.
#[test]
fn aspect_ratio_within_one_rounding_unit() {
    for (dw, dh, fc, fw, fh) in [
        (1920u64, 1080u64, 12u64, 16u64, 9u64),
        (2560, 1440, 7, 16, 9),
        (3840, 2160, 31, 21, 9),
        (1280, 1024, 5, 4, 3),
        (800, 600, 2, 1920, 1080),
    ] {
        let l = LayoutCalculator::compute(dw, dh, fc, fw, fh).unwrap();
        let drift = 2 * (l.cell_width as i128 * fh as i128 - l.cell_height as i128 * fw as i128);
        assert!(
            -(fh as i128) <= drift && drift <= fh as i128,
            "drift {} out of range for {}x{}",
            drift,
            fw,
            fh
        );
    }
}

// The columns never overflow the usable width:
// columns * (cell_width + 2 * margin_x) <= display_w * 94 / 100.
#[test]
fn columns_fit_usable_width() {
    for (dw, dh, fc, fw, fh) in [
        (1920u64, 1080u64, 12u64, 16u64, 9u64),
        (2560, 1440, 7, 16, 9),
        (3840, 2160, 31, 21, 9),
        (1366, 768, 9, 16, 10),
    ] {
        let l = LayoutCalculator::compute(dw, dh, fc, fw, fh).unwrap();
        assert!(100 * l.columns as u128 * (l.cell_width + 2 * l.margin_x) as u128 <= 94 * dw as u128);
    }
}

// frame_count = 0 fails with InvalidConfig, never a division by zero.
#[test]
fn zero_frame_count_is_invalid_config() {
    assert_eq!(
        LayoutCalculator::compute(1920, 1080, 0, 16, 9),
        Err(LayoutError::InvalidConfig)
    );
}

// Degenerate display dimensions are rejected the same way.
#[test]
fn zero_display_dimension_is_invalid_config() {
    assert_eq!(
        LayoutCalculator::compute(0, 1080, 12, 16, 9),
        Err(LayoutError::InvalidConfig)
    );
    assert_eq!(
        LayoutCalculator::compute(1920, 0, 12, 16, 9),
        Err(LayoutError::InvalidConfig)
    );
}

// A frame taller than wide has no defined vertical margin ratio.
#[test]
fn portrait_frame_is_invalid_config() {
    assert_eq!(
        LayoutCalculator::compute(1920, 1080, 12, 9, 16),
        Err(LayoutError::InvalidConfig)
    );
}

// A display too small for even one column is rejected, not laid out.
#[test]
fn tiny_display_with_many_frames_fails() {
    assert_eq!(
        LayoutCalculator::compute(2, 2, 65535, 16, 9),
        Err(LayoutError::InvalidConfig)
    );
}

// The struct is plain data.
#[test]
fn layout_fields_are_plain() {
    let l = ThumbnailLayout {
        cell_width: 1,
        cell_height: 1,
        margin_x: 0,
        margin_y: 0,
        columns: 1,
    };
    assert_eq!(l, l);
}
