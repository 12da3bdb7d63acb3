//! Error codes shared by every kernel service.

use vstd::prelude::*;

verus! {

/// The closed set of errors a command, a grant or a subscription can fail
/// with.
#[derive(Clone, Copy, Debug, PartialEq, Eq, Structural)]
pub enum ErrorCode {
    /// Generic failure.
    Fail,
    /// The resource is busy.
    Busy,
    /// The resource is already registered.
    Already,
    /// The resource is powered off.
    Off,
    /// A reservation is required first.
    Reserved,
    /// An argument, such as a slot number, is out of range.
    Invalid,
    /// A size does not match.
    Size,
    /// The operation was canceled.
    Cancel,
    /// Memory is exhausted.
    NoMem,
    /// The service or the operation is not present.
    NoSupport,
    /// The device is not available.
    NoDevice,
    /// The device is not installed.
    Uninstalled,
    /// The peer did not acknowledge.
    NoAck,
    /// A command returned a result of an unexpected shape.
    BadRVal,
}

/// Why an operation that waits for a notification did not complete.
#[derive(Clone, Copy, Debug, PartialEq, Eq, Structural)]
pub enum WaitError {
    /// A grant, a subscription or a command failed with this error; the
    /// caller did not wait.
    Failed(ErrorCode),
    /// The operation cannot complete: the notification it waits for will
    /// never arrive, or the service makes no progress. A process on a real
    /// kernel would hang.
    Hung,
}

/// The raw code of the last of the consecutively numbered errors.
pub const LAST_CONSECUTIVE_CODE: u32 = 13;

/// The raw code of [`ErrorCode::BadRVal`].
pub const BAD_RVAL_CODE: u32 = 1024;

impl ErrorCode {
    /// The number that stands for this error on the wire.
    pub open spec fn raw(self) -> u32 {
        match self {
            ErrorCode::Fail => 1,
            ErrorCode::Busy => 2,
            ErrorCode::Already => 3,
            ErrorCode::Off => 4,
            ErrorCode::Reserved => 5,
            ErrorCode::Invalid => 6,
            ErrorCode::Size => 7,
            ErrorCode::Cancel => 8,
            ErrorCode::NoMem => 9,
            ErrorCode::NoSupport => 10,
            ErrorCode::NoDevice => 11,
            ErrorCode::Uninstalled => 12,
            ErrorCode::NoAck => 13,
            ErrorCode::BadRVal => 1024,
        }
    }

    /// Whether `value` is the raw code of some error.
    pub open spec fn is_code(value: u32) -> bool {
        1 <= value <= LAST_CONSECUTIVE_CODE || value == BAD_RVAL_CODE
    }

    /// The error a raw code stands for; every unrecognized code stands for
    /// [`ErrorCode::Fail`].
    pub open spec fn of_raw(value: u32) -> ErrorCode {
        if value == 2 {
            ErrorCode::Busy
        } else if value == 3 {
            ErrorCode::Already
        } else if value == 4 {
            ErrorCode::Off
        } else if value == 5 {
            ErrorCode::Reserved
        } else if value == 6 {
            ErrorCode::Invalid
        } else if value == 7 {
            ErrorCode::Size
        } else if value == 8 {
            ErrorCode::Cancel
        } else if value == 9 {
            ErrorCode::NoMem
        } else if value == 10 {
            ErrorCode::NoSupport
        } else if value == 11 {
            ErrorCode::NoDevice
        } else if value == 12 {
            ErrorCode::Uninstalled
        } else if value == 13 {
            ErrorCode::NoAck
        } else if value == 1024 {
            ErrorCode::BadRVal
        } else {
            ErrorCode::Fail
        }
    }

    /// Encodes the error as its raw code.
    pub fn to_raw(self) -> (value: u32)
        ensures
            value == self.raw(),
            Self::is_code(value),
    {
        match self {
            ErrorCode::Fail => 1,
            ErrorCode::Busy => 2,
            ErrorCode::Already => 3,
            ErrorCode::Off => 4,
            ErrorCode::Reserved => 5,
            ErrorCode::Invalid => 6,
            ErrorCode::Size => 7,
            ErrorCode::Cancel => 8,
            ErrorCode::NoMem => 9,
            ErrorCode::NoSupport => 10,
            ErrorCode::NoDevice => 11,
            ErrorCode::Uninstalled => 12,
            ErrorCode::NoAck => 13,
            ErrorCode::BadRVal => 1024,
        }
    }

    /// Decodes a raw code, refusing the numbers that stand for no error.
    pub fn try_from_raw(value: u32) -> (code: Option<ErrorCode>)
        ensures
            code is Some <==> Self::is_code(value),
            code is Some ==> code->0 == Self::of_raw(value) && code->0.raw() == value,
    {
        if (1 <= value && value <= LAST_CONSECUTIVE_CODE) || value == BAD_RVAL_CODE {
            Some(Self::from_raw(value))
        } else {
            None
        }
    }

    /// Decodes a raw code totally: a number that stands for no error is read
    /// as [`ErrorCode::Fail`].
    pub fn from_raw(value: u32) -> (code: ErrorCode)
        ensures
            code == Self::of_raw(value),
            Self::is_code(value) ==> code.raw() == value,
            !Self::is_code(value) ==> code == ErrorCode::Fail,
    {
        match value {
            2 => ErrorCode::Busy,
            3 => ErrorCode::Already,
            4 => ErrorCode::Off,
            5 => ErrorCode::Reserved,
            6 => ErrorCode::Invalid,
            7 => ErrorCode::Size,
            8 => ErrorCode::Cancel,
            9 => ErrorCode::NoMem,
            10 => ErrorCode::NoSupport,
            11 => ErrorCode::NoDevice,
            12 => ErrorCode::Uninstalled,
            13 => ErrorCode::NoAck,
            1024 => ErrorCode::BadRVal,
            _ => ErrorCode::Fail,
        }
    }
}

/// Encoding an error and decoding the number gives the error back.
pub proof fn law_error_code_round_trip(code: ErrorCode)
    ensures
        ErrorCode::is_code(code.raw()),
        ErrorCode::of_raw(code.raw()) == code,
{
}

} // verus!
