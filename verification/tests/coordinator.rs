use std::sync::Arc;

use mizer_core::coordinator::{
    add_layouts, classify_paths, node_readings, node_settings_message, NodeValues, default_layouts, layout_node_paths, layouts_to_pairs,
    plan_tick, preset_ids, processing_order, read_states_into_view,
};
use mizer_core::{
    Color, ControlConfig, ControlType, CoordinatorRuntime, F64Bits, Layout, LayoutsView, NodeKind, NodeReadings, PathMap, PresetId,
    ProcessorPriorities,
};

fn node(path: &str) -> ControlConfig {
    ControlConfig { control_type: ControlType::Node { path: path.to_string() } }
}

fn bits(value: f64) -> F64Bits {
    F64Bits { bits: value.to_bits() }
}

fn fader_readings(path: &str, value: f64) -> NodeReadings {
    NodeReadings {
        faders: vec![(path.to_string(), bits(value))],
        dials: vec![],
        buttons: vec![],
        labels: vec![],
        clocks: vec![],
        button_colors: vec![],
        step_sequencers: vec![],
        levels: vec![],
    }
}

#[test]
fn idle_tick_skips_view_writes_when_nothing_changed() {
    let mut view = LayoutsView::default();
    read_states_into_view(&mut view, fader_readings("/Fader 0", 0.0));

    assert_eq!(read_states_into_view(&mut view, fader_readings("/Fader 0", 0.0)), 0);
}

#[test]
fn changed_value_propagates_in_the_same_tick() {
    let mut view = LayoutsView::default();
    read_states_into_view(&mut view, fader_readings("/Fader 0", 0.0));
    let path = "/Fader 0".to_string();
    assert_eq!(view.get_fader_value(&path).map(|v| f64::from_bits(v.bits)), Some(0.0));

    read_states_into_view(&mut view, fader_readings("/Fader 0", 0.75));

    assert_eq!(view.get_fader_value(&path).map(|v| f64::from_bits(v.bits)), Some(0.75));
    assert_eq!(read_states_into_view(&mut view, fader_readings("/Fader 0", 0.75)), 0);
}

#[test]
fn first_tick_counts_every_kind_that_changed() {
    let mut view = LayoutsView::default();
    let mut readings = fader_readings("/Fader 0", 0.5);
    readings.buttons = vec![("/Button 0".to_string(), true)];
    readings.levels = vec![("/Level 0".to_string(), bits(0.1))];
    assert_eq!(read_states_into_view(&mut view, readings), 3);
    // Empty readings over empty maps change nothing; three kinds now empty out.
    assert_eq!(read_states_into_view(&mut view, fader_readings("/Fader 0", 0.5)), 2);
}

#[test]
fn node_paths_are_sorted_and_unique() {
    let layouts = vec![
        Layout {
            id: "show".to_string(),
            controls: vec![node("/Fader 1"), node("/Fader 0"), ControlConfig { control_type: ControlType::Other }],
        },
        Layout { id: "second".to_string(), controls: vec![node("/Fader 1"), node("/Button 0")] },
    ];
    assert_eq!(layout_node_paths(&layouts), vec!["/Button 0", "/Fader 0", "/Fader 1"]);
}

#[test]
fn paths_are_split_by_node_type() {
    let typed = vec![
        ("/Fader 0".to_string(), Some(NodeKind::Fader)),
        ("/Dial 0".to_string(), Some(NodeKind::Dial)),
        ("/Gone".to_string(), None),
        ("/Fader 1".to_string(), Some(NodeKind::Fader)),
        ("/Other".to_string(), Some(NodeKind::Other)),
        ("/Clock".to_string(), Some(NodeKind::Timecode)),
    ];
    let split = classify_paths(&typed);
    assert_eq!(split.faders, vec!["/Fader 0", "/Fader 1"]);
    assert_eq!(split.dials, vec!["/Dial 0"]);
    assert_eq!(split.clocks, vec!["/Clock"]);
    assert!(split.buttons.is_empty());
    assert!(split.labels.is_empty());
    assert!(split.step_sequencers.is_empty());
    assert!(split.levels.is_empty());
}

#[test]
fn processors_run_by_priority_keeping_insertion_order_on_ties() {
    assert_eq!(processing_order(&vec![5, -1, 5, 0, -1]), vec![1, 4, 3, 0, 2]);
    assert_eq!(processing_order(&vec![]), Vec::<usize>::new());
}

#[test]
fn tick_plan_orders_each_phase_and_gates_refreshes() {
    let priorities = vec![
        ProcessorPriorities { pre_process: 2, process: 0, post_process: 1 },
        ProcessorPriorities { pre_process: 1, process: 0, post_process: 0 },
    ];
    let plan = plan_tick(&priorities, &vec![], true);
    assert_eq!(plan.pre_process, vec![1, 0]);
    assert_eq!(plan.process, vec![0, 1]);
    assert_eq!(plan.post_process, vec![1, 0]);
    assert!(!plan.refresh_settings);
    assert!(plan.refresh_metadata);
    let plan = plan_tick(&priorities, &vec!["/Node".to_string()], false);
    assert!(plan.refresh_settings);
    assert!(!plan.refresh_metadata);
}

#[test]
fn preset_ids_come_colour_intensity_shutter_position() {
    let ids = preset_ids(
        &vec![(PresetId::Color(1), "red"), (PresetId::Color(2), "blue")],
        &vec![(PresetId::Intensity(1), "full")],
        &vec![],
        &vec![(PresetId::Position(3), "center")],
    );
    assert_eq!(
        ids,
        vec![PresetId::Color(1), PresetId::Color(2), PresetId::Intensity(1), PresetId::Position(3)]
    );
}

#[test]
fn saved_layouts_give_back_the_loaded_pairs() {
    let layouts = add_layouts(vec![
        ("show".to_string(), vec![node("/Fader 0")]),
        ("empty".to_string(), vec![]),
    ]);
    assert_eq!(layouts.len(), 2);
    assert_eq!(layouts[0].id, "show");
    let pairs = layouts_to_pairs(layouts);
    assert_eq!(pairs.len(), 2);
    assert_eq!(pairs[0].0, "show");
    assert_eq!(pairs[0].1.len(), 1);
    assert_eq!(pairs[1].0, "empty");
    assert!(pairs[1].1.is_empty());
}

#[test]
fn cleared_project_has_one_empty_default_layout() {
    let layouts = default_layouts();
    assert_eq!(layouts.len(), 1);
    assert_eq!(layouts[0].id, "Default");
    assert!(layouts[0].controls.is_empty());
}

#[test]
fn runtime_keeps_layouts_processors_and_views() {
    let mut runtime = CoordinatorRuntime::new();
    runtime.add_layouts(vec![(
        "show".to_string(),
        vec![node("/Fader 1"), node("/Fader 0"), node("/Fader 1")],
    )]);
    assert_eq!(runtime.layout_node_paths(), vec!["/Fader 0", "/Fader 1"]);
    let saved = runtime.save_layouts();
    assert_eq!(saved.len(), 1);
    assert_eq!(saved[0].0, "show");
    assert_eq!(saved[0].1.len(), 3);

    runtime.add_processor(ProcessorPriorities { pre_process: 0, process: 3, post_process: 0 });
    runtime.add_processor(ProcessorPriorities { pre_process: 0, process: 1, post_process: 0 });
    let plan = runtime.plan_tick();
    assert_eq!(plan.process, vec![1, 0]);
    assert_eq!(plan.pre_process, vec![0, 1]);
    assert!(!plan.refresh_settings);
    runtime.set_read_node_settings(vec!["/Fader 0".to_string()]);
    runtime.set_read_node_metadata(true);
    let plan = runtime.plan_tick();
    assert!(plan.refresh_settings);
    assert!(plan.refresh_metadata);

    assert_eq!(runtime.read_states_into_view(fader_readings("/Fader 0", 0.5)), 1);
    assert_eq!(runtime.read_states_into_view(fader_readings("/Fader 0", 0.5)), 0);
    assert_eq!(
        runtime.layouts_view().get_fader_value(&"/Fader 0".to_string()).map(|v| f64::from_bits(v.bits)),
        Some(0.5)
    );

    runtime.clear_layouts();
    assert!(runtime.layout_node_paths().is_empty());
    let saved = runtime.save_layouts();
    assert_eq!(saved.len(), 1);
    assert_eq!(saved[0].0, "Default");
}

#[test]
fn idle_tick_with_a_nan_value_changes_nothing() {
    let mut view = LayoutsView::default();
    assert_eq!(read_states_into_view(&mut view, fader_readings("/Fader 0", f64::NAN)), 1);
    assert_eq!(read_states_into_view(&mut view, fader_readings("/Fader 0", f64::NAN)), 0);
}

#[test]
fn readings_pair_each_path_with_its_value() {
    let typed = vec![
        ("/Button 0".to_string(), Some(NodeKind::Button)),
        ("/Button 1".to_string(), Some(NodeKind::Button)),
        ("/Fader 0".to_string(), Some(NodeKind::Fader)),
        ("/Label 0".to_string(), Some(NodeKind::Label)),
    ];
    let paths = classify_paths(&typed);
    let values = NodeValues {
        faders: vec![Some(bits(0.5))],
        dials: vec![],
        buttons: vec![Some(true), Some(false)],
        button_colors: vec![None, Some(Color { red: bits(1.0), green: bits(0.0), blue: bits(0.0) })],
        labels: vec![Some(Arc::new("hi".to_string()))],
        clocks: vec![],
        step_sequencers: vec![],
        levels: vec![],
    };
    let readings = node_readings(&paths, values);
    assert_eq!(readings.faders, vec![("/Fader 0".to_string(), bits(0.5))]);
    assert_eq!(
        readings.buttons,
        vec![("/Button 0".to_string(), true), ("/Button 1".to_string(), false)]
    );
    assert_eq!(readings.button_colors.len(), 1);
    assert_eq!(readings.button_colors[0].0, "/Button 1");
    assert_eq!(readings.labels[0].0, "/Label 0");
    assert!(readings.dials.is_empty());

    let mut view = LayoutsView::default();
    assert_eq!(read_states_into_view(&mut view, readings), 4);
    assert_eq!(view.get_button_value(&"/Button 1".to_string()), Some(false));
    assert!(view.get_control_color(&"/Button 0".to_string()).is_none());
}

#[test]
fn settings_message_is_empty_when_nothing_is_watched() {
    let fetched = PathMap::from_pairs(vec![("/Node".to_string(), 7u32)]);
    assert_eq!(node_settings_message(&vec![], fetched).len(), 0);
    let fetched = PathMap::from_pairs(vec![("/Node".to_string(), 7u32)]);
    let message = node_settings_message(&vec!["/Node".to_string()], fetched);
    assert_eq!(message.get(&"/Node".to_string()), Some(&7));

    let mut runtime = CoordinatorRuntime::new();
    assert_eq!(runtime.node_settings_message(PathMap::<u32>::new()).len(), 0);
    runtime.set_read_node_settings(vec!["/Node".to_string()]);
    assert_eq!(runtime.read_node_settings(), &vec!["/Node".to_string()]);
    let fetched = PathMap::from_pairs(vec![("/Node".to_string(), 1u32)]);
    assert_eq!(runtime.node_settings_message(fetched).len(), 1);
}
