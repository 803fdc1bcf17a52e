//! Verified core of the layout views, the readings the UI takes of them, the
//! coordinator's per-tick decisions and the sACN output.
pub mod coordinator;
pub mod float_bits;
pub mod layout_reads;
pub mod ordering;
pub mod path_map;
pub mod sacn_output;
pub mod value;
pub mod views;

pub use coordinator::{
    ControlConfig, ControlType, CoordinatorRuntime, Layout, NodeKind, NodeReadings, NodeValues,
    PathsByKind, PresetId,
    ProcessorPriorities, TickPlan,
};
pub use float_bits::F64Bits;
pub use layout_reads::{
    ControlColorReading, DialReading, FFIStepSequencerValue, LayoutReadRequest, LayoutReading,
    LayoutRef,
};
pub use path_map::PathMap;
pub use sacn_output::{DestinationError, DestinationQuery, SacnOutput, SocketAddress};
pub use value::ViewValue;
pub use views::{Color, Dial, LayoutsView, StepSequencerState, Timecode};
