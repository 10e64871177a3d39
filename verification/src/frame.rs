//! Rendered frames and the layout of GPU readback buffers.

use std::sync::Arc;
use vstd::prelude::*;

verus! {

#[derive(Clone, Copy, Debug, PartialEq, Eq, Structural)]
pub struct Color {
    pub red: u8,
    pub green: u8,
    pub blue: u8,
    pub alpha: u8,
}

impl Color {
    /// Fully transparent black.
    pub fn transparent() -> (c: Self)
        ensures
            c == (Color { red: 0, green: 0, blue: 0, alpha: 0 }),
    {
        Color::rgba(0, 0, 0, 0)
    }

    pub fn rgba(red: u8, green: u8, blue: u8, alpha: u8) -> (c: Self)
        ensures
            c == (Color { red, green, blue, alpha }),
    {
        Color { red, green, blue, alpha }
    }
}

#[derive(Clone, Copy, Debug, PartialEq, Eq, Structural)]
pub struct GpuRenderOptions {
    pub background: Color,
}

impl Default for GpuRenderOptions {
    fn default() -> (r: Self)
        ensures
            r == (GpuRenderOptions {
                background: Color { red: 20, green: 22, blue: 28, alpha: 255 },
            }),
    {
        GpuRenderOptions { background: Color::rgba(20, 22, 28, 255) }
    }
}

/// The pixel layout frames are read back in.
#[derive(Clone, Copy, Debug, Default, PartialEq, Eq, Structural)]
pub enum ReadbackFormat {
    /// Tightly packed RGBA8 rows, 4 bytes per pixel.
    #[default]
    Rgba8,
    /// Planar I420: the full-size Y plane followed by the quarter-size U and
    /// V planes, 1.5 bytes per pixel. Both dimensions must be even.
    Yuv420p,
}

/// What happened to a preview frame handed to a surface.
#[derive(Clone, Copy, Debug, PartialEq, Eq, Structural)]
pub enum PreviewFrameStatus {
    Presented,
    PresentedSuboptimal,
    SkippedTimeout,
    SkippedOccluded,
    Reconfigure,
    SurfaceLost,
}

/// The byte length of a tightly packed `width` x `height` frame: four bytes
/// per pixel for RGBA8; for I420 a full-size Y plane and two half-size
/// chroma planes, one byte per sample.
pub open spec fn frame_len(width: u32, height: u32, format: ReadbackFormat) -> int {
    match format {
        ReadbackFormat::Rgba8 => width * height * 4,
        ReadbackFormat::Yuv420p => width * height + 2 * ((width / 2) * (height / 2)),
    }
}

/// Whether a frame of these sizes can be laid out as `format`: I420
/// subsamples chroma 2x2 and needs even sizes.
pub open spec fn frame_sizes_fit(width: u32, height: u32, format: ReadbackFormat) -> bool {
    format == ReadbackFormat::Yuv420p ==> width % 2 == 0 && height % 2 == 0
}

/// A rendered frame read back from the GPU: tightly packed rows of its
/// format.
#[derive(Debug, PartialEq, Eq)]
pub struct GpuFrame {
    width: u32,
    height: u32,
    format: ReadbackFormat,
    pixels: Vec<u8>,
}

impl GpuFrame {
    pub closed spec fn width_of(&self) -> u32 {
        self.width
    }

    pub closed spec fn height_of(&self) -> u32 {
        self.height
    }

    pub closed spec fn format_of(&self) -> ReadbackFormat {
        self.format
    }

    pub closed spec fn pixels_of(&self) -> Seq<u8> {
        self.pixels@
    }

    /// Every frame holds exactly the packed bytes of its sizes and format.
    #[verifier::type_invariant]
    closed spec fn packed(self) -> bool {
        &&& frame_sizes_fit(self.width, self.height, self.format)
        &&& self.pixels@.len() == frame_len(self.width, self.height, self.format)
    }

    /// A frame of `width` by `height` pixels laid out as `format`, holding
    /// `pixels`. Refused when I420 is asked for odd sizes, or when `pixels`
    /// is not exactly the packed frame's length.
    pub fn new(width: u32, height: u32, format: ReadbackFormat, pixels: Vec<u8>) -> (r: Result<
        Self,
        GpuRenderError,
    >)
        ensures
            !frame_sizes_fit(width, height, format) ==> r == Err::<Self, GpuRenderError>(
                GpuRenderError::OddYuv420pSize { width, height },
            ),
            frame_sizes_fit(width, height, format) && pixels@.len() != frame_len(width, height, format)
                ==> (r matches Err(GpuRenderError::InvalidImageData { width: w, height: h, expected, actual })
                && w == width && h == height && actual == pixels@.len() && expected as int == (
            if frame_len(width, height, format) > usize::MAX {
                usize::MAX as int
            } else {
                frame_len(width, height, format)
            })),
            frame_sizes_fit(width, height, format) && pixels@.len() == frame_len(width, height, format)
                ==> (r matches Ok(f) && f.width_of() == width && f.height_of() == height
                && f.format_of() == format && f.pixels_of() == pixels@),
    {
        if format == ReadbackFormat::Yuv420p && (width % 2 != 0 || height % 2 != 0) {
            return Err(GpuRenderError::OddYuv420pSize { width, height });
        }
        let w = width as u128;
        let h = height as u128;
        let expected: u128 = match format {
            ReadbackFormat::Rgba8 => {
                assert(w * h * 4 <= 0xffff_ffff * 0xffff_ffff * 4) by (nonlinear_arith)
                    requires
                        w <= 0xffff_ffff,
                        h <= 0xffff_ffff,
                ;
                w * h * 4
            },
            ReadbackFormat::Yuv420p => {
                assert(w * h <= 0xffff_ffff * 0xffff_ffff) by (nonlinear_arith)
                    requires
                        w <= 0xffff_ffff,
                        h <= 0xffff_ffff,
                ;
                assert((w / 2) * (h / 2) <= w * h) by (nonlinear_arith)
                    requires
                        w <= 0xffff_ffff,
                        h <= 0xffff_ffff,
                ;
                w * h + 2 * ((w / 2) * (h / 2))
            },
        };
        let actual = pixels.len();
        if expected != actual as u128 {
            let reported: usize = if expected > usize::MAX as u128 {
                usize::MAX
            } else {
                expected as usize
            };
            return Err(GpuRenderError::InvalidImageData { width, height, expected: reported, actual });
        }
        Ok(GpuFrame { width, height, format, pixels })
    }

    pub fn width(&self) -> (w: u32)
        ensures
            w == self.width_of(),
    {
        self.width
    }

    pub fn height(&self) -> (h: u32)
        ensures
            h == self.height_of(),
    {
        self.height
    }

    /// How [`Self::pixels`] is laid out.
    pub fn format(&self) -> (f: ReadbackFormat)
        ensures
            f == self.format_of(),
    {
        self.format
    }

    /// The frame's bytes: tightly packed rows of its format.
    pub fn pixels(&self) -> (p: &[u8])
        ensures
            p@ == self.pixels_of(),
            frame_sizes_fit(self.width_of(), self.height_of(), self.format_of()),
            p@.len() == frame_len(self.width_of(), self.height_of(), self.format_of()),
    {
        proof {
            use_type_invariant(self);
        }
        self.pixels.as_slice()
    }

    /// The frame's bytes, given up: tightly packed rows of its format.
    pub fn into_pixels(self) -> (p: Vec<u8>)
        ensures
            p@ == self.pixels_of(),
            frame_sizes_fit(self.width_of(), self.height_of(), self.format_of()),
            p@.len() == frame_len(self.width_of(), self.height_of(), self.format_of()),
    {
        proof {
            use_type_invariant(&self);
        }
        self.pixels
    }
}

impl Clone for GpuFrame {
    /// The same frame.
    fn clone(&self) -> (r: Self)
        ensures
            r.width_of() == self.width_of(),
            r.height_of() == self.height_of(),
            r.format_of() == self.format_of(),
            r.pixels_of() == self.pixels_of(),
    {
        proof {
            use_type_invariant(self);
        }
        let pixels = self.pixels.clone();
        assert(pixels@ =~= self.pixels@);
        GpuFrame { width: self.width, height: self.height, format: self.format, pixels }
    }
}

/// Why a frame or image buffer could not be laid out.
#[derive(Clone, Copy, Debug, PartialEq, Eq, Structural)]
pub enum GpuRenderError {
    SurfaceTooLarge { width: u32, height: u32 },
    InvalidImageData { width: u32, height: u32, expected: usize, actual: usize },
    /// A scene or surface with a zero dimension.
    InvalidSurfaceSize { width: u32, height: u32 },
    /// A preview target with a zero dimension.
    InvalidTargetSize { width: u32, height: u32 },
    /// The GPU cannot produce frames in this [`ReadbackFormat`].
    UnsupportedReadbackFormat(ReadbackFormat),
    /// [`ReadbackFormat::Yuv420p`] subsamples chroma 2x2, so it needs even
    /// dimensions.
    OddYuv420pSize { width: u32, height: u32 },
}

/// How many bytes each row of a texture copy must be a multiple of.
///
/// Trusted: this is wgpu's `COPY_BYTES_PER_ROW_ALIGNMENT`, which wgpu
/// (re-exported from wgpu-types 30.0.1) defines as the constant `256`.
#[verifier::external_body]
fn copy_row_alignment() -> (alignment: u32)
    ensures
        alignment == 256,
{
    wgpu::COPY_BYTES_PER_ROW_ALIGNMENT
}

/// `n` rounded up to a multiple of 256.
pub open spec fn round_up_256(n: int) -> int {
    ((n + 255) / 256) * 256
}

/// Row sizes of a readback buffer: tightly packed rows are padded to the
/// copy alignment in the buffer.
#[derive(Clone, Copy, Debug, PartialEq, Eq, Structural)]
pub struct ReadbackLayout {
    pub unpadded_bytes_per_row: u32,
    pub padded_bytes_per_row: u32,
    pub buffer_size: u64,
}

/// The layout of `width` by `height` pixels of `bytes_per_pixel` bytes each,
/// or `SurfaceTooLarge` when a padded row does not fit in `u32`.
pub open spec fn spec_layout(width: u32, height: u32, bytes_per_pixel: u32) -> Result<
    ReadbackLayout,
    GpuRenderError,
> {
    let row = width * bytes_per_pixel;
    if row > u32::MAX || row + 255 > u32::MAX {
        Err(GpuRenderError::SurfaceTooLarge { width, height })
    } else {
        Ok(
            ReadbackLayout {
                unpadded_bytes_per_row: row as u32,
                padded_bytes_per_row: round_up_256(row) as u32,
                buffer_size: (round_up_256(row) * height) as u64,
            },
        )
    }
}

/// The tightly packed bytes of a mapped readback buffer: when rows carry no
/// padding, its first `buffer_size` bytes; otherwise the first `unpadded`
/// bytes of each whole padded row.
pub open spec fn packed_rows(mapped: Seq<u8>, layout: ReadbackLayout) -> Seq<u8> {
    let u = layout.unpadded_bytes_per_row as int;
    let p = layout.padded_bytes_per_row as int;
    if u == p {
        mapped.take(layout.buffer_size as int)
    } else {
        let rows = layout.buffer_size as int / p;
        Seq::new((rows * u) as nat, |j: int| mapped[(j / u) * p + j % u])
    }
}

impl ReadbackLayout {
    /// What [`Self::unpad_into`] needs: a row is never wider than its padded
    /// form, which is non-empty whenever rows are padded.
    pub open spec fn rows_fit(self) -> bool {
        &&& self.unpadded_bytes_per_row <= self.padded_bytes_per_row
        &&& self.unpadded_bytes_per_row != self.padded_bytes_per_row ==> self.padded_bytes_per_row
            > 0
    }

    /// The layout of an RGBA8 surface.
    pub fn new(width: u32, height: u32) -> (r: Result<Self, GpuRenderError>)
        ensures
            r == spec_layout(width, height, 4),
            r is Ok ==> r->Ok_0.rows_fit(),
    {
        Self::with_bytes_per_pixel(width, height, 4)
    }

    pub fn with_bytes_per_pixel(width: u32, height: u32, bytes_per_pixel: u32) -> (r: Result<
        Self,
        GpuRenderError,
    >)
        ensures
            r == spec_layout(width, height, bytes_per_pixel),
            r is Ok ==> r->Ok_0.rows_fit(),
    {
        let unpadded = match width.checked_mul(bytes_per_pixel) {
            Some(row) => row,
            None => return Err(GpuRenderError::SurfaceTooLarge { width, height }),
        };
        let alignment = copy_row_alignment();
        let padded = match unpadded.checked_add(alignment - 1) {
            Some(value) => value / alignment * alignment,
            None => return Err(GpuRenderError::SurfaceTooLarge { width, height }),
        };
        assert(unpadded <= padded) by (nonlinear_arith)
            requires
                padded == ((unpadded + 255) / 256) * 256,
        ;
        assert(0 <= padded as int * height as int <= 0xffff_ffff * 0xffff_ffff) by (nonlinear_arith)
            requires
                0 <= padded <= 0xffff_ffff,
                0 <= height <= 0xffff_ffff,
        ;
        let buffer_size = padded as u64 * height as u64;
        Ok(
            ReadbackLayout {
                unpadded_bytes_per_row: unpadded,
                padded_bytes_per_row: padded,
                buffer_size,
            },
        )
    }

    /// Copies a mapped readback buffer into tightly packed rows.
    pub fn unpad(&self, mapped: &[u8], width: u32, height: u32) -> (r: Result<
        Vec<u8>,
        GpuRenderError,
    >)
        requires
            self.rows_fit(),
            self.buffer_size <= mapped@.len(),
        ensures
            self.unpadded_bytes_per_row * height > usize::MAX ==> r == Err::<Vec<u8>, GpuRenderError>(
                GpuRenderError::SurfaceTooLarge { width, height },
            ),
            self.unpadded_bytes_per_row * height <= usize::MAX ==> r is Ok && r->Ok_0@ == packed_rows(
                mapped@,
                *self,
            ),
    {
        let row = self.unpadded_bytes_per_row as usize;
        let capacity = match row.checked_mul(height as usize) {
            Some(capacity) => capacity,
            None => return Err(GpuRenderError::SurfaceTooLarge { width, height }),
        };
        let mut pixels = Vec::with_capacity(capacity);
        self.unpad_into(mapped, &mut pixels);
        assert(pixels@ == packed_rows(mapped@, *self));
        Ok(pixels)
    }

    /// Appends the tightly packed rows of `mapped` to `pixels`.
    pub fn unpad_into(&self, mapped: &[u8], pixels: &mut Vec<u8>)
        requires
            self.rows_fit(),
            self.buffer_size <= mapped@.len(),
        ensures
            final(pixels)@ == old(pixels)@ + packed_rows(mapped@, *self),
    {
        let mapped_len = mapped.len();
        assert(self.buffer_size <= mapped_len);
        let size = self.buffer_size as usize;
        let u = self.unpadded_bytes_per_row as usize;
        let p = self.padded_bytes_per_row as usize;
        if p == u {
            let mut i: usize = 0;
            while i < size
                invariant
                    i <= size <= mapped@.len(),
                    size == self.buffer_size,
                    pixels@ == old(pixels)@ + mapped@.subrange(0, i as int),
                decreases size - i,
            {
                pixels.push(mapped[i]);
                i = i + 1;
            }
            assert(mapped@.subrange(0, size as int) == mapped@.take(self.buffer_size as int));
            return;
        }
        let rows = size / p;
        let ghost packed = packed_rows(mapped@, *self);
        let mut k: usize = 0;
        while k < rows
            invariant
                0 < p,
                u < p,
                u == self.unpadded_bytes_per_row,
                p == self.padded_bytes_per_row,
                size == self.buffer_size,
                size <= mapped@.len(),
                rows == size / p,
                k <= rows,
                packed == packed_rows(mapped@, *self),
                pixels@ == old(pixels)@ + packed.subrange(0, (k * u) as int),
            decreases rows - k,
        {
            assert(k * p + p <= rows * p && rows * p <= size) by (nonlinear_arith)
                requires
                    k < rows,
                    rows == size / p,
                    p > 0,
            ;
            let start = k * p;
            let mut c: usize = 0;
            while c < u
                invariant
                    0 < p,
                    u < p,
                    u == self.unpadded_bytes_per_row,
                    p == self.padded_bytes_per_row,
                    size == self.buffer_size,
                    size <= mapped@.len(),
                    rows == size / p,
                    k < rows,
                    start == k * p,
                    start + p <= size,
                    c <= u,
                    packed == packed_rows(mapped@, *self),
                    pixels@ == old(pixels)@ + packed.subrange(0, (k * u + c) as int),
                decreases u - c,
            {
                let ghost j = k * u + c;
                assert(j / (u as int) == k && j % (u as int) == c) by (nonlinear_arith)
                    requires
                        j == k * u + c,
                        c < u,
                ;
                assert(j < rows * u) by (nonlinear_arith)
                    requires
                        j == k * u + c,
                        c < u,
                        k < rows,
                ;
                assert(packed[j] == mapped@[start + c]);
                assert(packed.subrange(0, j + 1) == packed.subrange(0, j).push(packed[j]));
                pixels.push(mapped[start + c]);
                c = c + 1;
            }
            assert((k + 1) * u == k * u + u) by (nonlinear_arith);
            k = k + 1;
        }
        assert(packed.len() == rows * u);
        assert(packed.subrange(0, (rows * u) as int) == packed);
    }
}

/// A decoded RGBA8 image, shared rather than copied between frames.
#[derive(Clone, Debug)]
pub struct DecodedImage {
    pub width: u32,
    pub height: u32,
    pub pixels: Arc<Vec<u8>>,
}

/// The byte length of `width` by `height` RGBA8 pixels.
pub open spec fn rgba_len(width: u32, height: u32) -> int {
    width * height * 4
}

impl DecodedImage {
    pub fn new(width: u32, height: u32, pixels: Vec<u8>) -> (r: Result<Self, GpuRenderError>)
        ensures
            match r {
                Ok(image) => image.width == width && image.height == height && image.pixels@
                    == pixels@ && width != 0 && height != 0 && pixels@.len() == rgba_len(
                    width,
                    height,
                ),
                Err(GpuRenderError::SurfaceTooLarge { width: w, height: h }) => w == width && h
                    == height && rgba_len(width, height) > usize::MAX,
                Err(GpuRenderError::InvalidImageData { width: w, height: h, expected, actual }) => {
                    &&& w == width
                    &&& h == height
                    &&& expected == rgba_len(width, height)
                    &&& actual == pixels@.len()
                    &&& (width == 0 || height == 0 || pixels@.len() != rgba_len(width, height))
                },
                _ => false,
            },
    {
        Self::shared(width, height, Arc::new(pixels))
    }

    /// Checks that `pixels` holds exactly `width` by `height` RGBA8 pixels.
    pub fn shared(width: u32, height: u32, pixels: Arc<Vec<u8>>) -> (r: Result<
        Self,
        GpuRenderError,
    >)
        ensures
            match r {
                Ok(image) => image.width == width && image.height == height && image.pixels
                    == pixels && width != 0 && height != 0 && pixels@.len() == rgba_len(
                    width,
                    height,
                ),
                Err(GpuRenderError::SurfaceTooLarge { width: w, height: h }) => w == width && h
                    == height && rgba_len(width, height) > usize::MAX,
                Err(GpuRenderError::InvalidImageData { width: w, height: h, expected, actual }) => {
                    &&& w == width
                    &&& h == height
                    &&& expected == rgba_len(width, height)
                    &&& actual == pixels@.len()
                    &&& (width == 0 || height == 0 || pixels@.len() != rgba_len(width, height))
                },
                _ => false,
            },
    {
        assert(0 <= width as int * height as int <= 0xffff_ffff * 0xffff_ffff) by (nonlinear_arith)
            requires
                0 <= width <= 0xffff_ffff,
                0 <= height <= 0xffff_ffff,
        ;
        let area = width as u64 * height as u64;
        let bytes = match area.checked_mul(4) {
            Some(bytes) => bytes,
            None => return Err(GpuRenderError::SurfaceTooLarge { width, height }),
        };
        if bytes > usize::MAX as u64 {
            return Err(GpuRenderError::SurfaceTooLarge { width, height });
        }
        let expected = bytes as usize;
        let actual = pixels.len();
        if width == 0 || height == 0 || actual != expected {
            return Err(GpuRenderError::InvalidImageData { width, height, expected, actual });
        }
        Ok(DecodedImage { width, height, pixels })
    }
}

/// A scene of `width` x `height` can be rendered only when neither is zero.
pub fn check_surface_size(width: u32, height: u32) -> (r: Result<(), GpuRenderError>)
    ensures
        r == (if width == 0 || height == 0 {
            Err(GpuRenderError::InvalidSurfaceSize { width, height })
        } else {
            Ok(())
        }),
{
    if width == 0 || height == 0 {
        return Err(GpuRenderError::InvalidSurfaceSize { width, height });
    }
    Ok(())
}

/// A frame submitted for readback in `format` needs a non-empty scene, with
/// even dimensions for [`ReadbackFormat::Yuv420p`].
pub fn check_submit_size(width: u32, height: u32, format: ReadbackFormat) -> (r: Result<
    (),
    GpuRenderError,
>)
    ensures
        r == (if width == 0 || height == 0 {
            Err(GpuRenderError::InvalidSurfaceSize { width, height })
        } else if format == ReadbackFormat::Yuv420p && (width % 2 != 0 || height % 2 != 0) {
            Err(GpuRenderError::OddYuv420pSize { width, height })
        } else {
            Ok(())
        }),
{
    check_surface_size(width, height)?;
    if format == ReadbackFormat::Yuv420p && (width % 2 != 0 || height % 2 != 0) {
        return Err(GpuRenderError::OddYuv420pSize { width, height });
    }
    Ok(())
}

/// A scene can be fitted into a preview target only when neither has a
/// zero dimension; the scene is checked first.
pub fn check_viewport_sizes(
    scene_width: u32,
    scene_height: u32,
    target_width: u32,
    target_height: u32,
) -> (r: Result<(), GpuRenderError>)
    ensures
        r == (if scene_width == 0 || scene_height == 0 {
            Err(GpuRenderError::InvalidSurfaceSize { width: scene_width, height: scene_height })
        } else if target_width == 0 || target_height == 0 {
            Err(GpuRenderError::InvalidTargetSize { width: target_width, height: target_height })
        } else {
            Ok(())
        }),
{
    check_surface_size(scene_width, scene_height)?;
    if target_width == 0 || target_height == 0 {
        return Err(
            GpuRenderError::InvalidTargetSize { width: target_width, height: target_height },
        );
    }
    Ok(())
}

/// Switching readback to `format`: `Ok(true)` when a YUV converter has to be
/// set up first (none is ready and the GPU supports it), `Ok(false)` when
/// nothing has to be set up, and an error when the GPU cannot convert.
pub fn plan_readback_format(format: ReadbackFormat, converter_ready: bool, yuv_supported: bool) -> (r:
    Result<bool, GpuRenderError>)
    ensures
        r == (if format == ReadbackFormat::Yuv420p && !converter_ready {
            if yuv_supported {
                Ok(true)
            } else {
                Err(GpuRenderError::UnsupportedReadbackFormat(format))
            }
        } else {
            Ok(false)
        }),
{
    if format == ReadbackFormat::Yuv420p && !converter_ready {
        if !yuv_supported {
            return Err(GpuRenderError::UnsupportedReadbackFormat(format));
        }
        return Ok(true);
    }
    Ok(false)
}

/// One plane of an I420 readback: the layout of its rows, its height, and
/// where its padded rows start in the readback buffer.
#[derive(Clone, Copy, Debug, PartialEq, Eq, Structural)]
pub struct YuvPlaneLayout {
    pub layout: ReadbackLayout,
    pub height: u32,
    pub offset: u64,
}

/// The Y, U and V planes of an I420 readback, packed one after another in
/// the readback buffer.
#[derive(Clone, Copy, Debug, PartialEq, Eq, Structural)]
pub struct YuvLayout {
    pub y: YuvPlaneLayout,
    pub u: YuvPlaneLayout,
    pub v: YuvPlaneLayout,
}

/// The planes of a `width` x `height` I420 frame: a full-size Y plane and
/// half-size U and V planes, one byte per sample, each a whole number of
/// aligned rows so every plane starts at an offset a copy accepts.
pub open spec fn spec_yuv_layout(width: u32, height: u32) -> Result<YuvLayout, GpuRenderError> {
    match spec_layout(width, height, 1) {
        Err(e) => Err(e),
        Ok(y) => match spec_layout(width / 2, height / 2, 1) {
            Err(e) => Err(e),
            Ok(c) => Ok(
                YuvLayout {
                    y: YuvPlaneLayout { layout: y, height, offset: 0 },
                    u: YuvPlaneLayout { layout: c, height: height / 2, offset: y.buffer_size },
                    v: YuvPlaneLayout {
                        layout: c,
                        height: height / 2,
                        offset: (y.buffer_size + c.buffer_size) as u64,
                    },
                },
            ),
        },
    }
}

/// Whether the three planes' sizes add up within `u64`.
pub open spec fn yuv_layout_fits(width: u32, height: u32) -> bool {
    match (spec_layout(width, height, 1), spec_layout(width / 2, height / 2, 1)) {
        (Ok(y), Ok(c)) => y.buffer_size + 2 * c.buffer_size <= u64::MAX,
        _ => true,
    }
}

/// The planes of an I420 readback (see [`spec_yuv_layout`]).
pub fn yuv_layout(width: u32, height: u32) -> (r: Result<YuvLayout, GpuRenderError>)
    requires
        yuv_layout_fits(width, height),
    ensures
        r == spec_yuv_layout(width, height),
        r matches Ok(l) ==> l.y.layout.rows_fit() && l.u.layout.rows_fit() && l.v.layout.rows_fit(),
{
    let y = ReadbackLayout::with_bytes_per_pixel(width, height, 1)?;
    let c = ReadbackLayout::with_bytes_per_pixel(width / 2, height / 2, 1)?;
    let u_offset = y.buffer_size;
    let v_offset = y.buffer_size + c.buffer_size;
    Ok(
        YuvLayout {
            y: YuvPlaneLayout { layout: y, height, offset: 0 },
            u: YuvPlaneLayout { layout: c, height: height / 2, offset: u_offset },
            v: YuvPlaneLayout { layout: c, height: height / 2, offset: v_offset },
        },
    )
}

/// The bytes of a whole I420 readback buffer.
pub open spec fn yuv_buffer_size(l: YuvLayout) -> int {
    l.v.offset + l.v.layout.buffer_size
}

/// The tightly packed rows of one plane of a mapped readback buffer.
pub open spec fn packed_plane(mapped: Seq<u8>, plane: YuvPlaneLayout) -> Seq<u8> {
    packed_rows(
        mapped.subrange(plane.offset as int, plane.offset + plane.layout.buffer_size),
        plane.layout,
    )
}

/// Packs the three padded planes of a mapped readback buffer into one
/// tightly packed I420 frame: Y, then U, then V.
pub fn yuv_unpad(l: &YuvLayout, mapped: &[u8]) -> (r: Vec<u8>)
    requires
        l.y.layout.rows_fit(),
        l.u.layout.rows_fit(),
        l.v.layout.rows_fit(),
        l.y.offset + l.y.layout.buffer_size <= mapped@.len(),
        l.u.offset + l.u.layout.buffer_size <= mapped@.len(),
        l.v.offset + l.v.layout.buffer_size <= mapped@.len(),
    ensures
        r@ == packed_plane(mapped@, l.y) + packed_plane(mapped@, l.u) + packed_plane(mapped@, l.v),
{
    let mut pixels: Vec<u8> = Vec::new();
    unpad_plane(&l.y, mapped, &mut pixels);
    unpad_plane(&l.u, mapped, &mut pixels);
    unpad_plane(&l.v, mapped, &mut pixels);
    pixels
}

/// Appends the packed rows of one plane.
fn unpad_plane(plane: &YuvPlaneLayout, mapped: &[u8], pixels: &mut Vec<u8>)
    requires
        plane.layout.rows_fit(),
        plane.offset + plane.layout.buffer_size <= mapped@.len(),
    ensures
        final(pixels)@ == old(pixels)@ + packed_plane(mapped@, *plane),
{
    let n = mapped.len();
    assert(plane.offset + plane.layout.buffer_size <= n);
    let start = plane.offset as usize;
    let end = start + plane.layout.buffer_size as usize;
    let region = vstd::slice::slice_subrange(mapped, start, end);
    plane.layout.unpad_into(region, pixels);
}

} // verus!
