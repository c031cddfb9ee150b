//! The test control protocol: messages, framing, and the network setup of the
//! USB gadget link.
pub mod error_codes;
pub mod framing;
pub mod messages;
pub mod transport;

pub use messages::{
    DeviceInfo, DeviceRole, ErrorInfo, Event, EventType, HubDeviceRole, HubDiscoverResult,
    HubInfo, HubListResult, HubPortInfo, HubPortPowerOffParams, HubPortPowerOnParams,
    HubPortPowerState, HubPortReleaseParams, HubPortReservationInfo, HubPortReserveParams,
    HubStatusParams, LogEntry, LogLevel, Message, Method, Request, Response, ResponseResult,
    SetRoleParams, TestAbortParams, TestResultsData, TestResultsParams, TestStartParams,
    TestStartResult, TestStatus,
};
pub use framing::MAX_MESSAGE_SIZE;
pub use transport::{UsbGadgetConfig, DEFAULT_TCP_PORT};
