//! The waits and deadlines used around the bridge, in milliseconds unless said
//! otherwise; `ci` selects the longer values for slow shared machines.
use vstd::prelude::*;

verus! {

pub const REQUEST_DEFAULT_SECS: u64 = 10;

pub const TOOL_CALL_SECS: u64 = 10;

pub const TOOL_CALL_CI_SECS: u64 = 45;

pub const INIT_WAIT_SECS: u64 = 30;

pub const INIT_WAIT_CI_SECS: u64 = 90;

pub const INIT_POLL_MILLIS: u64 = 200;

pub const INIT_EXTRA_DELAY_MILLIS: u64 = 500;

pub const INIT_EXTRA_DELAY_CI_SECS: u64 = 2;

pub const TOOL_RETRY_DELAY_MILLIS: u64 = 500;

pub const STRESS_BATCH_DELAY_MILLIS: u64 = 500;

pub const STRESS_RAPID_DELAY_MILLIS: u64 = 10;

pub const STRESS_RAPID_DELAY_CI_MILLIS: u64 = 100;

pub const CI_TEST_DELAY_SECS: u64 = 1;

/// The deadline of a request.
pub fn request() -> (r: u64)
    ensures
        r == REQUEST_DEFAULT_SECS * 1000,
{
    REQUEST_DEFAULT_SECS * 1000
}

/// The deadline of a tool call.
pub fn tool_call(ci: bool) -> (r: u64)
    ensures
        r == if ci {
            TOOL_CALL_CI_SECS * 1000
        } else {
            TOOL_CALL_SECS * 1000
        },
{
    if ci {
        TOOL_CALL_CI_SECS * 1000
    } else {
        TOOL_CALL_SECS * 1000
    }
}

/// How long to wait for the engine to finish starting.
pub fn init_wait(ci: bool) -> (r: u64)
    ensures
        r == if ci {
            INIT_WAIT_CI_SECS * 1000
        } else {
            INIT_WAIT_SECS * 1000
        },
{
    if ci {
        INIT_WAIT_CI_SECS * 1000
    } else {
        INIT_WAIT_SECS * 1000
    }
}

/// The interval between two checks that the engine has started.
pub fn init_poll() -> (r: u64)
    ensures
        r == INIT_POLL_MILLIS,
{
    INIT_POLL_MILLIS
}

/// The extra wait once the engine has started.
pub fn init_extra_delay(ci: bool) -> (r: u64)
    ensures
        r == if ci {
            INIT_EXTRA_DELAY_CI_SECS * 1000
        } else {
            INIT_EXTRA_DELAY_MILLIS as int
        },
{
    if ci {
        INIT_EXTRA_DELAY_CI_SECS * 1000
    } else {
        INIT_EXTRA_DELAY_MILLIS
    }
}

/// The wait before a tool call is tried again.
pub fn tool_retry_delay() -> (r: u64)
    ensures
        r == TOOL_RETRY_DELAY_MILLIS,
{
    TOOL_RETRY_DELAY_MILLIS
}

/// The deadline of a load run, in seconds: thrice the base on slow machines.
pub fn stress_timeout(base_secs: u64, ci: bool) -> (r: u64)
    requires
        ci ==> base_secs <= u64::MAX / 3,
    ensures
        r == if ci {
            base_secs * 3
        } else {
            base_secs as int
        },
{
    if ci {
        base_secs * 3
    } else {
        base_secs
    }
}

/// The pause between two requests of a rapid run.
pub fn rapid_delay(ci: bool) -> (r: u64)
    ensures
        r == if ci {
            STRESS_RAPID_DELAY_CI_MILLIS
        } else {
            STRESS_RAPID_DELAY_MILLIS
        },
{
    if ci {
        STRESS_RAPID_DELAY_CI_MILLIS
    } else {
        STRESS_RAPID_DELAY_MILLIS
    }
}

/// The pause between two batches of requests.
pub fn batch_delay() -> (r: u64)
    ensures
        r == STRESS_BATCH_DELAY_MILLIS,
{
    STRESS_BATCH_DELAY_MILLIS
}

/// The pause between two checks on slow machines.
pub fn ci_test_delay() -> (r: u64)
    ensures
        r == CI_TEST_DELAY_SECS * 1000,
{
    CI_TEST_DELAY_SECS * 1000
}

} // verus!
