//! Test control protocol between a master (test coordinator) and remote devices
//! (units under test and slaves), with USB hub port power control and port
//! reservations.
pub mod command;
pub mod master;
pub mod protocol;
pub mod remote;
pub mod store;
pub mod text;
pub mod usb_hub;

pub use protocol::{
    error_codes, DeviceInfo, DeviceRole, ErrorInfo, Event, EventType, HubDeviceRole,
    HubDiscoverResult, HubInfo, HubListResult, HubPortInfo, HubPortPowerOffParams,
    HubPortPowerOnParams, HubPortPowerState, HubPortReleaseParams, HubPortReservationInfo,
    HubPortReserveParams, HubStatusParams, LogEntry, LogLevel, Message, Method, Request,
    Response, ResponseResult, SetRoleParams, TestAbortParams, TestResultsData,
    TestResultsParams, TestStartParams, TestStartResult, TestStatus, UsbGadgetConfig,
    DEFAULT_TCP_PORT,
};
pub use usb_hub::{PortReservation, PowerState, UsbHub, UsbHubManager, UsbPort};
