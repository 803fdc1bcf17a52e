use std::sync::Arc;

use mizer_core::{Dial, F64Bits, LayoutsView, PathMap};

fn bits(value: f64) -> F64Bits {
    F64Bits { bits: value.to_bits() }
}

fn fader_map(value: f64) -> PathMap<F64Bits> {
    PathMap::from_pairs(vec![("/Fader 0".to_string(), bits(value))])
}

fn fader_value(view: &LayoutsView, path: &str) -> Option<f64> {
    view.get_fader_value(&path.to_string()).map(|v| f64::from_bits(v.bits))
}

#[test]
fn unchanged_fader_values_skip_the_write() {
    let mut view = LayoutsView::default();

    assert!(view.write_fader_values(fader_map(0.5)));
    assert!(!view.write_fader_values(fader_map(0.5)));
    assert_eq!(fader_value(&view, "/Fader 0"), Some(0.5));
}

#[test]
fn changed_fader_values_propagate_on_write() {
    let mut view = LayoutsView::default();
    view.write_fader_values(fader_map(0.5));

    assert!(view.write_fader_values(fader_map(0.75)));
    assert_eq!(fader_value(&view, "/Fader 0"), Some(0.75));
}

#[test]
fn unchanged_label_values_skip_the_write() {
    let mut view = LayoutsView::default();
    let labels = || {
        PathMap::from_pairs(vec![("/Label 0".to_string(), Arc::new("hello".to_string()))])
    };

    assert!(view.write_label_values(labels()));
    assert!(!view.write_label_values(labels()));
    assert_eq!(
        view.get_label_value(&"/Label 0".to_string()),
        Some(Arc::new("hello".to_string()))
    );
}

#[test]
fn changed_dial_values_propagate_on_write() {
    let mut view = LayoutsView::default();
    let dial = |value: f64| Dial { value: bits(value), ..Default::default() };
    let dials = |value: f64| PathMap::from_pairs(vec![("/Dial 0".to_string(), dial(value))]);

    assert!(view.write_dial_values(dials(0.25)));
    assert!(!view.write_dial_values(dials(0.25)));
    assert!(view.write_dial_values(dials(0.5)));
    assert_eq!(view.get_dial_value(&"/Dial 0".to_string()), Some(dial(0.5)));
}

#[test]
fn default_dial_spans_zero_to_one_as_percentage() {
    let dial = Dial::default();
    assert_eq!(f64::from_bits(dial.value.bits), 0.0);
    assert_eq!(f64::from_bits(dial.min.bits), 0.0);
    assert_eq!(f64::from_bits(dial.max.bits), 1.0);
    assert!(dial.percentage);
}

#[test]
fn empty_view_publishes_nothing() {
    let view = LayoutsView::default();
    assert_eq!(view.get_fader_value(&"/Fader 0".to_string()), None);
    assert_eq!(view.get_button_value(&"/Button 0".to_string()), None);
    assert_eq!(view.get_label_value(&"/Label 0".to_string()), None);
    assert_eq!(view.get_level_value(&"/Level 0".to_string()), None);
}

#[test]
fn negative_zero_counts_as_unchanged_and_keeps_the_published_value() {
    let mut view = LayoutsView::default();
    assert!(view.write_fader_values(fader_map(0.0)));
    assert!(!view.write_fader_values(fader_map(-0.0)));
    let published = view.get_fader_value(&"/Fader 0".to_string()).unwrap();
    assert_eq!(published.bits, 0.0f64.to_bits());
}

#[test]
fn an_unchanged_nan_value_skips_the_write() {
    let mut view = LayoutsView::default();
    assert!(view.write_fader_values(fader_map(f64::NAN)));
    assert!(!view.write_fader_values(fader_map(f64::NAN)));
    assert!(view.write_level_values(fader_map(f64::NAN)));
    assert!(!view.write_level_values(fader_map(f64::NAN)));
    assert!(view.write_fader_values(fader_map(0.5)));
}

#[test]
fn a_write_adding_a_path_is_a_change() {
    let mut view = LayoutsView::default();
    view.write_fader_values(fader_map(0.5));
    let two = PathMap::from_pairs(vec![
        ("/Fader 0".to_string(), bits(0.5)),
        ("/Fader 1".to_string(), bits(0.5)),
    ]);
    assert!(view.write_fader_values(two));
    assert_eq!(fader_value(&view, "/Fader 1"), Some(0.5));
    assert!(view.write_fader_values(fader_map(0.5)));
    assert_eq!(fader_value(&view, "/Fader 1"), None);
}

#[test]
fn writes_of_one_kind_leave_the_others_alone() {
    let mut view = LayoutsView::default();
    view.write_fader_values(fader_map(0.5));
    assert!(view.write_level_values(PathMap::from_pairs(vec![(
        "/Fader 0".to_string(),
        bits(0.25)
    )])));
    assert!(view.write_button_values(PathMap::from_pairs(vec![("/Button 0".to_string(), true)])));
    assert_eq!(fader_value(&view, "/Fader 0"), Some(0.5));
    assert_eq!(
        view.get_level_value(&"/Fader 0".to_string()).map(|v| f64::from_bits(v.bits)),
        Some(0.25)
    );
    assert_eq!(view.get_button_value(&"/Button 0".to_string()), Some(true));
}

#[test]
fn later_pairs_for_a_path_replace_earlier_ones() {
    let map = PathMap::from_pairs(vec![
        ("/Fader 0".to_string(), bits(0.1)),
        ("/Fader 1".to_string(), bits(0.2)),
        ("/Fader 0".to_string(), bits(0.3)),
    ]);
    assert_eq!(map.len(), 2);
    assert_eq!(map.get(&"/Fader 0".to_string()).map(|v| f64::from_bits(v.bits)), Some(0.3));
}
