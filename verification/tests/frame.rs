use std::sync::Arc;

use celesta::frame::{
    check_submit_size, check_surface_size, check_viewport_sizes, plan_readback_format, yuv_layout,
    yuv_unpad,
    Color, DecodedImage, GpuFrame, GpuRenderError, GpuRenderOptions, ReadbackFormat,
    ReadbackLayout,
};

#[test]
fn pads_readback_rows_to_the_gpu_copy_alignment() {
    let layout = ReadbackLayout::new(3, 2).unwrap();
    assert_eq!(layout.unpadded_bytes_per_row, 12);
    assert_eq!(layout.padded_bytes_per_row, 256);
    assert_eq!(layout.buffer_size, 512);
}

#[test]
fn unpads_aligned_and_padded_readback_rows() {
    let aligned = ReadbackLayout::new(64, 2).unwrap();
    let mapped: Vec<u8> = (0..=255).cycle().take(512).collect();
    assert_eq!(aligned.unpad(&mapped, 64, 2).unwrap(), mapped);

    let padded = ReadbackLayout::new(3, 2).unwrap();
    let mut mapped = vec![0; 512];
    mapped[..12].fill(1);
    mapped[256..268].fill(2);
    let pixels = padded.unpad(&mapped, 3, 2).unwrap();
    assert_eq!(pixels.len(), 24);
    assert!(pixels[..12].iter().all(|byte| *byte == 1));
    assert!(pixels[12..].iter().all(|byte| *byte == 2));
}

#[test]
fn layouts_for_other_pixel_sizes_and_oversized_rows() {
    let luma = ReadbackLayout::with_bytes_per_pixel(300, 4, 1).unwrap();
    assert_eq!(luma.unpadded_bytes_per_row, 300);
    assert_eq!(luma.padded_bytes_per_row, 512);
    assert_eq!(luma.buffer_size, 2048);
    assert_eq!(
        ReadbackLayout::new(u32::MAX, 1),
        Err(GpuRenderError::SurfaceTooLarge { width: u32::MAX, height: 1 })
    );
    assert_eq!(
        ReadbackLayout::with_bytes_per_pixel(u32::MAX - 10, 1, 1),
        Err(GpuRenderError::SurfaceTooLarge { width: u32::MAX - 10, height: 1 })
    );
    let empty = ReadbackLayout::new(0, 5).unwrap();
    assert_eq!(empty.buffer_size, 0);
}

#[test]
fn unpad_into_appends_after_existing_pixels() {
    let layout = ReadbackLayout::with_bytes_per_pixel(2, 2, 1).unwrap();
    let mut mapped = vec![9; 512];
    mapped[0] = 1;
    mapped[1] = 2;
    mapped[256] = 3;
    mapped[257] = 4;
    let mut pixels = vec![7];
    layout.unpad_into(&mapped, &mut pixels);
    assert_eq!(pixels, vec![7, 1, 2, 3, 4]);
}

#[test]
fn decoded_images_must_match_their_dimensions() {
    let image = DecodedImage::new(2, 1, vec![1, 2, 3, 4, 5, 6, 7, 8]).unwrap();
    assert_eq!(image.width, 2);
    assert_eq!(image.pixels.len(), 8);
    assert!(matches!(
        DecodedImage::new(2, 1, vec![0; 7]),
        Err(GpuRenderError::InvalidImageData { width: 2, height: 1, expected: 8, actual: 7 })
    ));
    assert!(matches!(
        DecodedImage::shared(0, 3, Arc::new(Vec::new())),
        Err(GpuRenderError::InvalidImageData { expected: 0, actual: 0, .. })
    ));
}

#[test]
fn frames_and_colors_keep_their_parts() {
    let frame = GpuFrame::new(2, 2, ReadbackFormat::Yuv420p, vec![1, 2, 3, 4, 5, 6]).unwrap();
    assert_eq!(frame.clone(), frame);
    assert_eq!(frame.width(), 2);
    assert_eq!(frame.height(), 2);
    assert_eq!(frame.format(), ReadbackFormat::Yuv420p);
    assert_eq!(frame.pixels(), &[1, 2, 3, 4, 5, 6]);
    assert_eq!(frame.into_pixels(), vec![1, 2, 3, 4, 5, 6]);
    assert_eq!(ReadbackFormat::default(), ReadbackFormat::Rgba8);
    assert_eq!(
        Color::rgba(1, 2, 3, 4),
        Color { red: 1, green: 2, blue: 3, alpha: 4 }
    );
    assert_eq!(Color::transparent(), Color::rgba(0, 0, 0, 0));
    assert_eq!(GpuRenderOptions::default().background, Color::rgba(20, 22, 28, 255));
}

#[test]
fn scenes_and_preview_targets_need_both_dimensions() {
    assert_eq!(check_surface_size(1, 1), Ok(()));
    assert_eq!(
        check_surface_size(0, 720),
        Err(GpuRenderError::InvalidSurfaceSize { width: 0, height: 720 })
    );
    assert_eq!(check_viewport_sizes(1920, 1080, 512, 512), Ok(()));
    assert_eq!(
        check_viewport_sizes(1920, 0, 0, 512),
        Err(GpuRenderError::InvalidSurfaceSize { width: 1920, height: 0 })
    );
    assert_eq!(
        check_viewport_sizes(1920, 1080, 512, 0),
        Err(GpuRenderError::InvalidTargetSize { width: 512, height: 0 })
    );
}

#[test]
fn yuv_readback_needs_even_sizes_and_gpu_support() {
    assert_eq!(check_submit_size(3, 3, ReadbackFormat::Rgba8), Ok(()));
    assert_eq!(
        check_submit_size(3, 4, ReadbackFormat::Yuv420p),
        Err(GpuRenderError::OddYuv420pSize { width: 3, height: 4 })
    );
    assert_eq!(check_submit_size(4, 4, ReadbackFormat::Yuv420p), Ok(()));
    assert_eq!(
        check_submit_size(0, 4, ReadbackFormat::Yuv420p),
        Err(GpuRenderError::InvalidSurfaceSize { width: 0, height: 4 })
    );
    assert_eq!(plan_readback_format(ReadbackFormat::Yuv420p, false, true), Ok(true));
    assert_eq!(plan_readback_format(ReadbackFormat::Yuv420p, true, false), Ok(false));
    assert_eq!(plan_readback_format(ReadbackFormat::Rgba8, false, false), Ok(false));
    assert_eq!(
        plan_readback_format(ReadbackFormat::Yuv420p, false, false),
        Err(GpuRenderError::UnsupportedReadbackFormat(ReadbackFormat::Yuv420p))
    );
}

#[test]
fn yuv_planes_are_packed_one_after_another_in_aligned_rows() {

    let layout = yuv_layout(8, 4).unwrap();
    assert_eq!(layout.y.offset, 0);
    assert_eq!(layout.y.layout.padded_bytes_per_row, 256);
    assert_eq!(layout.y.layout.buffer_size, 1024);
    assert_eq!(layout.u.offset, 1024);
    assert_eq!(layout.u.height, 2);
    assert_eq!(layout.u.layout.unpadded_bytes_per_row, 4);
    assert_eq!(layout.u.layout.buffer_size, 512);
    assert_eq!(layout.v.offset, 1536);

    let mut mapped = vec![0xee_u8; 2048];
    for row in 0..4 {
        for x in 0..8 {
            mapped[row * 256 + x] = (row * 8 + x) as u8;
        }
    }
    for row in 0..2 {
        for x in 0..4 {
            mapped[1024 + row * 256 + x] = 100 + (row * 4 + x) as u8;
            mapped[1536 + row * 256 + x] = 200 + (row * 4 + x) as u8;
        }
    }
    let pixels = yuv_unpad(&layout, &mapped);
    assert_eq!(pixels.len(), 8 * 4 * 3 / 2);
    let expected: Vec<u8> = (0..32)
        .chain(100..108)
        .chain(200..208)
        .collect();
    assert_eq!(pixels, expected);
}

#[test]
fn yuv_layouts_of_aligned_widths_carry_no_padding() {

    let layout = yuv_layout(512, 2).unwrap();
    assert_eq!(layout.y.layout.padded_bytes_per_row, 512);
    assert_eq!(layout.u.layout.padded_bytes_per_row, 256);
    assert_eq!(layout.v.offset, 1024 + 256);
    assert_eq!(
        yuv_layout(u32::MAX, 2),
        Err(GpuRenderError::SurfaceTooLarge { width: u32::MAX, height: 2 })
    );
}

#[test]
fn frames_hold_exactly_their_packed_bytes() {
    assert!(GpuFrame::new(2, 1, ReadbackFormat::Rgba8, vec![0; 8]).is_ok());
    assert!(matches!(
        GpuFrame::new(2, 2, ReadbackFormat::Rgba8, Vec::new()),
        Err(GpuRenderError::InvalidImageData { width: 2, height: 2, expected: 16, actual: 0 })
    ));
    assert!(matches!(
        GpuFrame::new(4, 2, ReadbackFormat::Yuv420p, vec![0; 11]),
        Err(GpuRenderError::InvalidImageData { expected: 12, actual: 11, .. })
    ));
    assert!(matches!(
        GpuFrame::new(3, 2, ReadbackFormat::Yuv420p, vec![0; 9]),
        Err(GpuRenderError::OddYuv420pSize { width: 3, height: 2 })
    ));
    assert_eq!(GpuFrame::new(0, 0, ReadbackFormat::Rgba8, Vec::new()).unwrap().pixels().len(), 0);
}
