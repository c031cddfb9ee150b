//! USB hub port power control and port reservations.
pub mod laws;
pub mod listing_laws;
pub mod manager;
pub mod types;
pub mod uhubctl;

pub use manager::UsbHubManager;
pub use types::{DeviceRole, PortReservation, PowerState, UsbHub, UsbPort};
