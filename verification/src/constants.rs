//! Protocol constants: the control frame types and the field identifiers that
//! may appear inside a control-start frame.

use vstd::prelude::*;

verus! {

/// Control frame type: accept.
pub const CONTROL_ACCEPT: u32 = 0x01;

/// Control frame type: stream start.
pub const CONTROL_START: u32 = 0x02;

/// Control frame type: stream stop.
pub const CONTROL_STOP: u32 = 0x03;

/// Control frame type: ready.
pub const CONTROL_READY: u32 = 0x04;

/// Control frame type: finish.
pub const CONTROL_FINISH: u32 = 0x05;

/// Field identifier inside a control-start frame: the content type.
pub const CONTROL_FIELD_CONTENT_TYPE: u32 = 0x01;

} // verus!
