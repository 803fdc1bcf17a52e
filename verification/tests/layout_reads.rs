use std::sync::Arc;

use mizer_core::layout_reads::{
    button_reading, clock_reading, control_color_reading, dial_reading, fader_reading,
    label_reading, read_layout_value, read_layout_values, step_sequencer_reading,
};
use mizer_core::{
    Color, Dial, F64Bits, LayoutReadRequest, LayoutRef, LayoutsView, PathMap,
    StepSequencerState, Timecode,
};

fn bits(value: f64) -> F64Bits {
    F64Bits { bits: value.to_bits() }
}

fn f(value: F64Bits) -> f64 {
    f64::from_bits(value.bits)
}

fn path(p: &str) -> String {
    p.to_string()
}

#[test]
fn missing_values_read_as_defaults() {
    let view = LayoutsView::default();
    assert_eq!(f(fader_reading(&view, &path("/x"))), 0.0);
    assert_eq!(button_reading(&view, &path("/x")), 0);
    assert_eq!(clock_reading(&view, &path("/x")), Timecode::default());
    let dial = dial_reading(&view, &path("/x"));
    assert_eq!((f(dial.value), f(dial.min), f(dial.max), dial.is_percentage), (0.0, 0.0, 1.0, 1));
    let color = control_color_reading(&view, &path("/x"));
    assert_eq!(color.has_color, 0);
    assert_eq!(label_reading(&view, &path("/x")), "");
    let steps = step_sequencer_reading(&view, &path("/x"));
    assert_eq!(steps.value, vec![0u8; 16]);
    assert_eq!(steps.beat, 0);
}

#[test]
fn published_values_are_read_back() {
    let mut view = LayoutsView::default();
    view.write_button_values(PathMap::from_pairs(vec![(path("/b"), true)]));
    view.write_control_colors(PathMap::from_pairs(vec![(
        path("/b"),
        Color { red: bits(1.0), green: bits(0.5), blue: bits(0.0) },
    )]));
    let mut steps = [false; 16];
    steps[0] = true;
    steps[15] = true;
    view.write_step_sequencer_values(PathMap::from_pairs(vec![(
        path("/s"),
        StepSequencerState { steps, beat: 7 },
    )]));
    view.write_label_values(PathMap::from_pairs(vec![(path("/l"), Arc::new("hello".to_string()))]));
    view.write_dial_values(PathMap::from_pairs(vec![(
        path("/d"),
        Dial { value: bits(0.3), min: bits(-1.0), max: bits(2.0), percentage: false },
    )]));

    assert_eq!(button_reading(&view, &path("/b")), 1);
    let color = control_color_reading(&view, &path("/b"));
    assert_eq!((color.has_color, f(color.color_red), f(color.color_green)), (1, 1.0, 0.5));
    let read = step_sequencer_reading(&view, &path("/s"));
    let mut expected = vec![0u8; 16];
    expected[0] = 1;
    expected[15] = 1;
    assert_eq!(read.value, expected);
    assert_eq!(read.beat, 7);
    assert_eq!(label_reading(&view, &path("/l")), "hello");
    let dial = dial_reading(&view, &path("/d"));
    assert_eq!((f(dial.value), f(dial.min), f(dial.max), dial.is_percentage), (0.3, -1.0, 2.0, 0));
}

#[test]
fn batch_reads_follow_the_requested_kind() {
    let mut view = LayoutsView::default();
    view.write_fader_values(PathMap::from_pairs(vec![(path("/n"), bits(0.25))]));
    view.write_level_values(PathMap::from_pairs(vec![(path("/n"), bits(0.75))]));
    view.write_button_values(PathMap::from_pairs(vec![(path("/n"), true)]));

    let requests: Vec<LayoutReadRequest> = (0u8..8)
        .map(|kind| LayoutReadRequest { path: path("/n"), kind })
        .collect();
    let readings = read_layout_values(&view, &requests);
    assert_eq!(readings.len(), 8);
    assert_eq!(f(readings[0].value), 0.25);
    assert_eq!((f(readings[1].value), f(readings[1].max), readings[1].percentage), (0.0, 1.0, 1));
    assert_eq!((f(readings[2].value), readings[2].has_color), (1.0, 0));
    assert_eq!(readings[3].label.as_deref(), Some(""));
    assert_eq!(readings[4].steps, vec![0u8; 16]);
    assert_eq!(f(readings[5].value), 0.75);
    for other in &readings[6..] {
        assert_eq!(f(other.value), 0.0);
        assert!(other.label.is_none());
        assert!(other.steps.is_empty());
    }
    assert!(read_layout_value(&view, 0, &path("/n")).label.is_none());
}

fn keep(text: String) -> String {
    text
}

#[test]
fn repeated_batch_label_reads_keep_retention_bounded() {
    let view = LayoutsView::default();
    let mut layout = LayoutRef::new(());
    let request = vec![LayoutReadRequest { path: path("/Label 0"), kind: 3 }];

    let values = layout.read_layout_values(&view, &request, keep);
    assert_eq!(values[0].label.as_deref(), Some(""));
    assert_eq!(layout.label(&path("/Label 0")).map(String::as_str), Some(""));
    let baseline = layout.label_count();
    for _ in 0..1000 {
        layout.read_layout_values(&view, &request, keep);
    }

    assert_eq!(layout.label_count(), baseline);
}

#[test]
fn repeated_single_label_reads_keep_retention_bounded() {
    let view = LayoutsView::default();
    let mut layout = LayoutRef::new(());

    layout.read_label_value(&view, &path("/Label 0"), keep);
    assert_eq!(layout.label(&path("/Label 0")).map(String::as_str), Some(""));
    let baseline = layout.label_count();
    for _ in 0..1000 {
        layout.read_label_value(&view, &path("/Label 0"), keep);
    }

    assert_eq!(layout.label_count(), baseline);
}

#[test]
fn each_label_path_read_keeps_its_own_label() {
    let mut view = LayoutsView::default();
    view.write_label_values(PathMap::from_pairs(vec![
        (path("/a"), Arc::new("first".to_string())),
        (path("/b"), Arc::new("second".to_string())),
    ]));
    let mut layout: LayoutRef<(), String> = LayoutRef::new(());
    let requests = vec![
        LayoutReadRequest { path: path("/a"), kind: 3 },
        LayoutReadRequest { path: path("/c"), kind: 0 },
        LayoutReadRequest { path: path("/b"), kind: 3 },
        LayoutReadRequest { path: path("/a"), kind: 3 },
    ];
    let readings = layout.read_layout_values(&view, &requests, |text: String| text.to_uppercase());
    assert_eq!(readings[0].label.as_deref(), Some("first"));
    assert!(readings[1].label.is_none());
    assert_eq!(layout.label_count(), 2);
    assert_eq!(layout.label(&path("/a")).map(String::as_str), Some("FIRST"));
    assert_eq!(layout.label(&path("/b")).map(String::as_str), Some("SECOND"));
    assert!(layout.label(&path("/c")).is_none());
    layout.read_label_value(&view, &path("/c"), keep);
    assert_eq!(layout.label_count(), 3);
    assert_eq!(*layout.layouts_view(), ());
}
