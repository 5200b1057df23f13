//! Rendering options, the pixel frame a chart is drawn into, and the
//! encoding of that frame as PNG bytes, with one labelled error for every
//! stage that can fail.
use vstd::prelude::*;
use crate::input::{Sample, all_in_range, points};
use crate::viewport::{Viewport, compute_viewport, viewport_of};

verus! {

/// image::ImageError, carried as the cause of a failure to encode.
#[verifier::external_type_specification]
#[verifier::external_body]
pub struct ExImageError(image::ImageError);

/// The PNG encoding of an RGB frame of the given size.
pub uninterp spec fn png_of(width: u32, height: u32, pixels: Seq<u8>) -> Seq<u8>;

/// Pixels left free around the chart.
pub const CHART_MARGIN: u32 = 5;

/// Pixels kept for the tick labels beside each axis.
pub const LABEL_AREA_SIZE: u32 = 30;

/// Point size of the caption font.
pub const CAPTION_FONT_SIZE: u32 = 50;

/// Bytes per pixel of an RGB frame.
pub const BYTES_PER_PIXEL: usize = 3;

/// The number of bytes of a `width` by `height` RGB frame.
pub open spec fn frame_len(width: u32, height: u32) -> int {
    width as int * height as int * 3
}

/// Whether a `width` by `height` RGB frame can be addressed in memory.
pub open spec fn frame_fits(width: u32, height: u32) -> bool {
    frame_len(width, height) <= usize::MAX
}

/// Relies on image::write_buffer_with_format with the PNG output format:
/// it writes the encoding of the RGB pixels into the vector, and that
/// encoding depends on its arguments alone. It panics when the pixel count is
/// not width * height * 3, which `requires` rules out; writing into a vector,
/// it fails only on a zero width or height, which the PNG encoder refuses.
#[verifier::external_body]
fn write_png(width: u32, height: u32, pixels: &[u8]) -> (r: Result<Vec<u8>, image::ImageError>)
    requires
        pixels@.len() == frame_len(width, height),
    ensures
        r is Ok <==> (width > 0 && height > 0),
        r matches Ok(bytes) ==> bytes@ == png_of(width, height, pixels@),
{
    let mut bytes: Vec<u8> = Vec::new();
    let written = image::write_buffer_with_format(
        &mut std::io::Cursor::new(&mut bytes),
        pixels,
        width,
        height,
        image::ColorType::Rgb8,
        image::ImageOutputFormat::Png,
    );
    written.map(|_| bytes)
}

/// What a chart is drawn with.
#[derive(Clone, Debug, PartialEq, Eq)]
pub struct PlotOptions {
    /// Width of the image in pixels.
    pub width: u32,
    /// Height of the image in pixels.
    pub height: u32,
    /// A caption drawn above the chart.
    pub title: Option<String>,
}

impl PlotOptions {
    /// A 640 by 480 image without a title.
    pub fn new() -> (r: PlotOptions)
        ensures
            r.width == 640,
            r.height == 480,
            r.title is None,
    {
        PlotOptions { width: 640, height: 480, title: None }
    }
}

/// The size of an RGB frame whose bytes can be addressed; the pixel buffer
/// and the encoder both take it from here.
#[derive(Clone, Copy, Debug, PartialEq, Eq)]
pub struct FrameLayout {
    width: u32,
    height: u32,
}

impl View for FrameLayout {
    type V = (u32, u32);

    closed spec fn view(&self) -> (u32, u32) {
        (self.width, self.height)
    }
}

impl FrameLayout {
    #[verifier::type_invariant]
    spec fn fits(self) -> bool {
        frame_fits(self.width, self.height)
    }

    /// The layout of a `width` by `height` frame, if its bytes can be addressed.
    pub fn new(width: u32, height: u32) -> (r: Option<FrameLayout>)
        ensures
            r is Some <==> frame_fits(width, height),
            r matches Some(l) ==> l@ == (width, height),
    {
        let pixels = (width as u64).checked_mul(height as u64);
        match pixels {
            None => None,
            Some(n) => {
                if n > usize::MAX as u64 / 3 {
                    None
                } else {
                    Some(FrameLayout { width, height })
                }
            },
        }
    }

    pub fn width(&self) -> (r: u32)
        ensures
            r == self@.0,
    {
        self.width
    }

    pub fn height(&self) -> (r: u32)
        ensures
            r == self@.1,
    {
        self.height
    }

    /// The number of bytes of the frame.
    pub fn byte_len(&self) -> (r: usize)
        ensures
            r == frame_len(self@.0, self@.1),
            frame_fits(self@.0, self@.1),
    {
        proof {
            use_type_invariant(self);
        }
        self.width as usize * self.height as usize * BYTES_PER_PIXEL
    }

    /// A frame of zero bytes, ready to be drawn into.
    pub fn blank_buffer(&self) -> (r: Vec<u8>)
        ensures
            r@.len() == frame_len(self@.0, self@.1),
            forall|i: int| 0 <= i < r@.len() ==> r@[i] == 0,
    {
        let n = self.byte_len();
        let mut buf: Vec<u8> = Vec::with_capacity(n);
        while buf.len() < n
            invariant
                buf@.len() <= n,
                forall|i: int| 0 <= i < buf@.len() ==> buf@[i] == 0,
            decreases n - buf@.len(),
        {
            buf.push(0);
        }
        buf
    }
}


/// The stage label of a failure to draw the chart.
pub open spec fn drawing_label() -> Seq<char> {
    "Failed to make plot"@
}

/// The stage label of a failure to encode the frame.
pub open spec fn encoding_label() -> Seq<char> {
    "Failed to make plot into image"@
}

/// What went wrong, one case for each source of failure.
#[derive(Debug)]
pub enum PlotFailure {
    /// The drawing surface failed; the text describes how.
    Drawing(String),
    /// The image codec failed.
    Encoding(image::ImageError),
    /// The frame has more bytes than memory can address.
    FrameTooLarge,
}

/// A failure to render a chart, with the label of the stage that failed.
#[derive(Debug)]
pub struct MakePlotError {
    pub label: String,
    pub source: PlotFailure,
}

impl MakePlotError {
    /// A failure of the drawing stage.
    pub fn from_drawing(detail: String) -> (r: MakePlotError)
        ensures
            r.label@ == drawing_label(),
            r.source == PlotFailure::Drawing(detail),
    {
        MakePlotError { label: String::from_str("Failed to make plot"), source: PlotFailure::Drawing(detail) }
    }

    /// A failure of the encoding stage.
    pub fn from_encoding(e: image::ImageError) -> (r: MakePlotError)
        ensures
            r.label@ == encoding_label(),
            r.source == PlotFailure::Encoding(e),
    {
        MakePlotError { label: String::from_str("Failed to make plot into image"), source: PlotFailure::Encoding(e) }
    }

    /// A frame too large to allocate.
    pub fn frame_too_large() -> (r: MakePlotError)
        ensures
            r.label@ == drawing_label(),
            r.source is FrameTooLarge,
    {
        MakePlotError { label: String::from_str("Failed to make plot"), source: PlotFailure::FrameTooLarge }
    }

    /// A description of the underlying cause.
    pub fn message(&self) -> (r: String)
        ensures
            self.source matches PlotFailure::Drawing(d) ==> r@ == d@,
            self.source matches PlotFailure::Encoding(e)
                ==> vstd::string::to_string_from_display_ensures::<image::ImageError>(&e, r),
            self.source is FrameTooLarge ==> r@ == "the image is too large for memory"@,
    {
        match &self.source {
            PlotFailure::Drawing(d) => d.clone(),
            PlotFailure::Encoding(e) => e.to_string(),
            PlotFailure::FrameTooLarge => String::from_str("the image is too large for memory"),
        }
    }
}

/// What a chart is drawn into: its data-space bounds and its pixel frame.
#[derive(Clone, Copy, Debug, PartialEq, Eq)]
pub struct PlotPlan {
    pub viewport: Viewport,
    pub layout: FrameLayout,
}

/// Fixes the viewport of the samples and the frame that `options` asks for.
pub fn plan_plot(values: &Vec<Sample>, options: &PlotOptions) -> (r: Result<PlotPlan, MakePlotError>)
    requires
        values@.len() > 0,
        all_in_range(values@),
    ensures
        r is Ok <==> frame_fits(options.width, options.height),
        r matches Ok(p) ==> p.viewport@ == viewport_of(points(values@)) && p.layout@ == (
            options.width,
            options.height,
        ),
        r matches Err(e) ==> e.label@ == drawing_label() && e.source is FrameTooLarge,
{
    match FrameLayout::new(options.width, options.height) {
        None => Err(MakePlotError::frame_too_large()),
        Some(layout) => Ok(PlotPlan { viewport: compute_viewport(values), layout }),
    }
}

/// Passes encoded bytes through, and labels a failure of the codec.
pub fn adapt_encoding(r: Result<Vec<u8>, image::ImageError>) -> (out: Result<Vec<u8>, MakePlotError>)
    ensures
        r matches Ok(b0) ==> (out matches Ok(b) && b@ == b0@),
        r matches Err(e0) ==> (out matches Err(e) && e.label@ == encoding_label() && e.source
            == PlotFailure::Encoding(e0)),
{
    match r {
        Ok(bytes) => Ok(bytes),
        Err(e) => Err(MakePlotError::from_encoding(e)),
    }
}

/// Encodes a drawn frame as PNG bytes.
pub fn encode_frame(layout: &FrameLayout, pixels: &Vec<u8>) -> (r: Result<Vec<u8>, MakePlotError>)
    requires
        pixels@.len() == frame_len(layout@.0, layout@.1),
    ensures
        r is Ok <==> (layout@.0 > 0 && layout@.1 > 0),
        r matches Ok(b) ==> b@ == png_of(layout@.0, layout@.1, pixels@),
        r matches Err(e) ==> e.label@ == encoding_label() && e.source is Encoding,
{
    let encoded = write_png(layout.width(), layout.height(), pixels.as_slice());
    adapt_encoding(encoded)
}

} // verus!
