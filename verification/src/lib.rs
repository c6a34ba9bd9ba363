//! The state of a node-graph editor: the graph of nodes, ports and
//! connections, the pan and zoom of its viewport, and the gestures that
//! change them.

pub mod arena;
pub mod events;
pub mod graph;
pub mod graph_editor;
pub mod id_type;
pub mod pan_zoom;
pub mod traits;
pub mod ui_state;
pub mod vector;

pub use events::{BackgroundEvent, GraphEditorResponse, NodeEvent, PortEvent};
pub use graph::{
    EguiGraphError, Graph, InputParam, InputParamKind, Node, NodeView, OutputParam, ARENA_LIMIT,
};
pub use graph_editor::{EditorView, GraphEditorState};
pub use id_type::{AnyParameterId, InputId, NodeId, OutputId};
pub use pan_zoom::PanZoom;
pub use traits::NodeTemplateTrait;
pub use ui_state::{ConnectTo, ConnectionInProgress, DragState, NodeFinder, PortsData};
