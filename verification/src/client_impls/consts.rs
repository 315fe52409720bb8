//! Texts and times of the app.

use vstd::prelude::*;

verus! {

/// The proxy that is used where no other is given.
pub const DEFAULT_URL: &'static str = "na.mineshare.dev";

/// The button that leaves a screen.
pub const CANCEL: &'static str = " Cancel ";

/// The button that shows the settings of the proxy.
pub const ADVANCED: &'static str = " Advanced ";

/// The button that starts sharing.
pub const START: &'static str = "Start";

/// How long a frame stays on the screen, in microseconds.
pub const TICK_LEN: u64 = 33333;

/// How long connecting to the proxy may take, in nanoseconds.
pub const CONNECT_TIME: u64 = 5000000000;

/// How long to wait before the first attempt to connect again: the bits of two
/// seconds in single precision.
pub const RETRY_START: u32 = 0x40000000;

} // verus!
