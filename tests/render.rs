use nu_plugin_makeplot::input::{normalize_input, Element, FieldValue, Input, RecordField};
use nu_plugin_makeplot::render::{
    adapt_encoding, encode_frame, plan_plot, FrameLayout, MakePlotError, PlotFailure, PlotOptions,
};
use nu_plugin_makeplot::viewport::Viewport;
use nu_plugin_makeplot::Plot;

fn xy(x: i64, y: i64) -> Element {
    Element::Record(vec![
        RecordField { name: "x".to_string(), value: FieldValue::Int(x) },
        RecordField { name: "y".to_string(), value: FieldValue::Int(y) },
    ])
}

#[test]
fn default_options() {
    let o = PlotOptions::new();
    assert_eq!(o.width, 640);
    assert_eq!(o.height, 480);
    assert_eq!(o.title, None);
    assert_eq!(Plot::new(), Plot);
}

#[test]
fn squares_encode_to_a_default_sized_png() {
    let input = Input::List([0, 1, 4, 9, 16].iter().map(|n| Element::Int(*n)).collect());
    let values = normalize_input(&input).unwrap();
    let plan = plan_plot(&values, &PlotOptions::new()).unwrap();
    assert_eq!(
        plan.viewport,
        Viewport { min_x: -4_000_000, max_x: 44_000_000, min_y: -16_000_000, max_y: 176_000_000 }
    );
    let pixels = plan.layout.blank_buffer();
    assert_eq!(pixels.len(), 640 * 480 * 3);
    let bytes = encode_frame(&plan.layout, &pixels).unwrap();
    assert!(!bytes.is_empty());
    let decoded = image::load_from_memory(&bytes).unwrap();
    assert_eq!((decoded.width(), decoded.height()), (640, 480));
}

#[test]
fn records_with_size_and_title_encode_to_that_size() {
    let input = Input::List(vec![xy(0, 0), xy(1, 1)]);
    let values = normalize_input(&input).unwrap();
    let options = PlotOptions { width: 100, height: 50, title: Some("t".to_string()) };
    let plan = plan_plot(&values, &options).unwrap();
    assert_eq!((plan.layout.width(), plan.layout.height()), (100, 50));
    let bytes = encode_frame(&plan.layout, &plan.layout.blank_buffer()).unwrap();
    let decoded = image::load_from_memory(&bytes).unwrap();
    assert_eq!((decoded.width(), decoded.height()), (100, 50));
}

#[test]
fn encoding_keeps_the_pixels() {
    let layout = FrameLayout::new(2, 1).unwrap();
    let pixels: Vec<u8> = vec![255, 0, 0, 1, 2, 3];
    let bytes = encode_frame(&layout, &pixels).unwrap();
    assert_ne!(bytes, pixels);
    assert_eq!(&bytes[..8], &[137, 80, 78, 71, 13, 10, 26, 10]);
    let decoded = image::load_from_memory(&bytes).unwrap().to_rgb8();
    assert_eq!(decoded.into_raw(), pixels);
}

#[test]
fn frame_layout_sizes() {
    let layout = FrameLayout::new(7, 3).unwrap();
    assert_eq!(layout.byte_len(), 63);
    assert!(layout.blank_buffer().iter().all(|b| *b == 0));
    assert_eq!(FrameLayout::new(0, 0).unwrap().byte_len(), 0);
    assert!(FrameLayout::new(u32::MAX, u32::MAX).is_some() == (usize::MAX as u128 >= (u32::MAX as u128).pow(2) * 3));
}

#[test]
fn too_large_frame_is_a_labelled_error() {
    if usize::MAX as u128 >= (u32::MAX as u128).pow(2) * 3 {
        return;
    }
    let values = vec![nu_plugin_makeplot::input::Sample { x: 0, y: 0 }];
    let options = PlotOptions { width: u32::MAX, height: u32::MAX, title: None };
    let e = plan_plot(&values, &options).unwrap_err();
    assert_eq!(e.label, "Failed to make plot");
    assert!(matches!(e.source, PlotFailure::FrameTooLarge));
}

#[test]
fn zero_width_frame_fails_to_encode() {
    let layout = FrameLayout::new(0, 10).unwrap();
    let e = encode_frame(&layout, &vec![]).unwrap_err();
    assert_eq!(e.label, "Failed to make plot into image");
    assert!(matches!(e.source, PlotFailure::Encoding(_)));
    assert!(!e.message().is_empty());
}

#[test]
fn drawing_failure_keeps_its_description() {
    let e = MakePlotError::from_drawing("no font".to_string());
    assert_eq!(e.label, "Failed to make plot");
    assert_eq!(e.message(), "no font");
}

#[test]
fn encoded_bytes_pass_through() {
    let out = adapt_encoding(Ok(vec![1, 2, 3])).unwrap();
    assert_eq!(out, vec![1, 2, 3]);
}

#[test]
fn zero_height_frame_fails_to_encode() {
    let layout = FrameLayout::new(10, 0).unwrap();
    let e = encode_frame(&layout, &vec![]).unwrap_err();
    assert_eq!(e.label, "Failed to make plot into image");
}

#[test]
fn codec_failure_message_is_the_cause_text() {
    let layout = FrameLayout::new(0, 3).unwrap();
    let e = encode_frame(&layout, &vec![]).unwrap_err();
    let cause = match &e.source {
        PlotFailure::Encoding(c) => c.to_string(),
        _ => panic!("expected a codec failure"),
    };
    assert_eq!(e.message(), cause);
    assert_ne!(e.message(), e.label);
}
