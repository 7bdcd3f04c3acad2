use vstd::prelude::*;

verus! {

/// Keys of a zenoh-pico session configuration that the examples set or read.
pub enum ZenohConfigKey {
    /// The session mode (`"client"` or `"peer"`).
    Mode,
    /// How long scouting waits for other nodes, in milliseconds.
    ScoutingTimeout,
    /// The locator the session listens on.
    Listen,
}

/// The result code by which zenoh-pico reports success.
pub const Z_OK: i8 = 0;

/// The outcome of a zenoh-pico call that reports a result code: success for
/// `Z_OK`, otherwise the code itself as the error. Inserting a configuration
/// value returns it as it is; opening a session requires it to be a success.
pub fn z_result(code: i8) -> (res: Result<(), i8>)
    ensures
        res is Ok <==> code == Z_OK,
        res matches Err(e) ==> e == code,
{
    if code == Z_OK {
        Ok(())
    } else {
        Err(code)
    }
}

} // verus!
