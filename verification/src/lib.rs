//! Normalizes the live telemetry of a bus simulation into a stable vehicle
//! state and reports what changed between two successive states.
//!
//! A document of the telemetry interface is decoded into a record that keeps
//! the interface's own shapes (`decode`, `api`), the record is turned into the
//! canonical state (`api2vehicle`, `vehicle`), and two states are compared
//! field by field (`vehicle_diff`).

pub mod api;
pub mod api2vehicle;
pub mod config;
pub mod decode;
pub mod json;
pub mod reading;
pub mod vehicle;
pub mod vehicle_diff;

pub use api::current_vehicle_name;
pub use api::get_button_by_name;
pub use api::ApiButton;
pub use api::ApiLamps;
pub use api::ApiVehicleType;
pub use api::ApiWorldType;
pub use api2vehicle::get_vehicle_state_from_api;
pub use config::RequestConfig;
pub use decode::decode_button;
pub use decode::decode_lamps;
pub use decode::decode_vehicle;
pub use decode::decode_world;
pub use decode::DecodeError;
pub use reading::Reading;
pub use vehicle::init_vehicle_state;
pub use vehicle::GearSelector;
pub use vehicle::Indicator;
pub use vehicle::VehicleState;
pub use vehicle_diff::compare_vehicle_states;
pub use vehicle_diff::FieldChange;
pub use vehicle_diff::FieldValue;
