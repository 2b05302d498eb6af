//! Verified core of a multi-pane browsing host: the pane lifecycle state
//! machine, the coordinate transform between caller units and the embedding
//! platform's logical units, the per-pane instrumentation script builder, and
//! the event relay that reports navigation and telemetry back to the host UI.
//!
//! The host window itself (native surfaces, windowing, messaging) is an
//! outside collaborator; this crate holds the decisions and the data they act
//! on, each stated as a contract and proved.

pub mod events;
pub mod geometry;
pub mod lifecycle;
pub mod script;
pub mod telemetry;
pub mod urls;

pub use events::EventRelay;
pub use events::EventKind;
pub use events::EventView;
pub use events::HostEvent;
pub use events::nav_ordered;
pub use events::started_in_log;
pub use lifecycle::AttachRequest;
pub use lifecycle::BoundsPlan;
pub use lifecycle::EvalRequest;
pub use lifecycle::NavPhase;
pub use lifecycle::Pane;
pub use lifecycle::PaneError;
pub use lifecycle::PaneHost;
pub use lifecycle::PaneView;
pub use lifecycle::SurfaceOp;
pub use geometry::Policy;
pub use geometry::Rect;
pub use geometry::Scale;
pub use geometry::TransformError;
pub use geometry::to_logical;
pub use script::ScriptVariant;
pub use script::build_bridge_script;
pub use script::build_init_script;
pub use script::build_navigate_script;
pub use script::build_placeholder_script;
pub use script::js_quote;
pub use telemetry::ConsoleBuffer;
pub use telemetry::ConsoleLine;
pub use telemetry::LogLevel;
pub use telemetry::MetaTag;
pub use telemetry::SelectionMonitor;
pub use telemetry::TelemetryKind;
pub use telemetry::cap_chars;
pub use telemetry::dedup_meta_tags;
