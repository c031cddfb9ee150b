//! Error codes of error responses.
use vstd::prelude::*;

verus! {

pub const PARSE_ERROR: i32 = -32700;
pub const INVALID_REQUEST: i32 = -32600;
pub const METHOD_NOT_FOUND: i32 = -32601;
pub const INVALID_PARAMS: i32 = -32602;
pub const INTERNAL_ERROR: i32 = -32603;

pub const TEST_NOT_FOUND: i32 = -32000;
pub const TEST_ALREADY_RUNNING: i32 = -32001;
pub const NETWORK_CONFIG_FAILED: i32 = -32002;
pub const PERMISSION_DENIED: i32 = -32003;
pub const TIMEOUT: i32 = -32004;
pub const USB_GADGET_ERROR: i32 = -32005;

pub const HUB_NOT_FOUND: i32 = -32100;
pub const HUB_PORT_NOT_FOUND: i32 = -32101;
pub const HUB_PORT_ALREADY_RESERVED: i32 = -32102;
pub const HUB_RESERVATION_NOT_FOUND: i32 = -32103;
pub const HUB_POWER_CONTROL_FAILED: i32 = -32104;
pub const UHUBCTL_NOT_AVAILABLE: i32 = -32105;
pub const HUB_INVALID_OPERATION: i32 = -32106;

} // verus!
