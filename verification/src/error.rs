//! Error type of the library, recovery strategies and return codes.

use vstd::prelude::*;
use vstd::string::*;
use crate::text::{string_of, push_dec, push_hex2, dec, hex2};

verus! {

#[verifier::external_type_specification]
#[verifier::external_body]
pub struct ExIoError(std::io::Error);

/// Result type used throughout the library.
pub type Result<T> = std::result::Result<T, PoKeysError>;

/// Main error type for PoKeys operations.
#[derive(Debug)]
pub enum PoKeysError {
    Generic,
    DeviceNotFound,
    NotConnected,
    ConnectionFailed,
    CommunicationError,
    Transfer(String),
    InvalidParameter,
    Parameter(String),
    NotSupported,
    UnsupportedOperation,
    CannotClaimUsb,
    CannotConnect,
    Io(std::io::Error),
    InvalidChecksum,
    InvalidResponse,
    Timeout,
    EnumerationFailed,
    InvalidHandle,
    Protocol(String),
    InternalError(String),
    ModelLoadError(String, String),
    ModelParseError(String, String),
    ModelValidationError(String),
    ModelDirCreateError(String, String),
    ModelDirReadError(String, String),
    ModelWatcherError(String),
    UnsupportedPinCapability(u8, String),
    MissingRelatedCapability(u8, String, String),
    RelatedPinInactive(u8, String),
    RelatedCapabilityError(String),
    PinConflict(String),
    InvalidPin(u8),
    InvalidConfiguration(String),
    I2cPacketTooLarge { size: usize, max_size: usize, suggestion: String },
    I2cTimeout,
    I2cBusError,
    I2cNack,
    NetworkTimeout,
    MaxRetriesExceeded,
    InvalidPacketStructure(String),
    InvalidCommand(u8),
    InvalidDeviceId(u8),
    InvalidChecksumDetailed { expected: u8, received: u8 },
    InvalidSegmentMapping(String),
    SegmentMappingNotSupported,
    CustomPinoutError(String),
    USPIBridgeCommandFailed(String),
    VirtualDeviceError(String),
    InvalidVirtualDeviceId { id: u8, max: u8 },
}

/// Recovery strategies for different error types.
#[derive(Debug, Clone, Copy, PartialEq, Eq, Structural)]
pub enum RecoveryStrategy {
    Fail,
    /// Retry after the given number of milliseconds.
    RetryWithDelay(u64),
    RetryWithBackoff,
    ResetAndRetry,
}

/// Return codes of the PoKeys C library.
#[derive(Debug, Clone, Copy, PartialEq, Eq, Structural)]
pub enum ReturnCode {
    Success,
    ErrGeneric,
    ErrNotConnected,
    ErrTransfer,
    ErrParameter,
    ErrNotSupported,
    ErrCannotClaimUsb,
    ErrCannotConnect,
}

/// The numeric value of a return code.
pub open spec fn return_code_value(c: ReturnCode) -> int {
    match c {
        ReturnCode::Success => 0,
        ReturnCode::ErrGeneric => -1,
        ReturnCode::ErrNotConnected => -5,
        ReturnCode::ErrTransfer => -10,
        ReturnCode::ErrParameter => -20,
        ReturnCode::ErrNotSupported => -30,
        ReturnCode::ErrCannotClaimUsb => -100,
        ReturnCode::ErrCannotConnect => -101,
    }
}

impl ReturnCode {
    /// The numeric value of the return code (0, -1, -5, -10, -20, -30, -100, -101).
    pub fn code(&self) -> (r: i32)
        ensures
            r == return_code_value(*self),
    {
        match self {
            ReturnCode::Success => 0,
            ReturnCode::ErrGeneric => -1,
            ReturnCode::ErrNotConnected => -5,
            ReturnCode::ErrTransfer => -10,
            ReturnCode::ErrParameter => -20,
            ReturnCode::ErrNotSupported => -30,
            ReturnCode::ErrCannotClaimUsb => -100,
            ReturnCode::ErrCannotConnect => -101,
        }
    }
}

/// Errors that a retry may clear.
pub open spec fn spec_is_recoverable(e: &PoKeysError) -> bool {
    match e {
        PoKeysError::I2cTimeout | PoKeysError::I2cBusError | PoKeysError::I2cNack
        | PoKeysError::NetworkTimeout | PoKeysError::Timeout | PoKeysError::CommunicationError
        | PoKeysError::USPIBridgeCommandFailed(_) => true,
        _ => false,
    }
}

/// The recovery strategy recommended for an error.
pub open spec fn spec_recovery_strategy(e: &PoKeysError) -> RecoveryStrategy {
    match e {
        PoKeysError::I2cTimeout => RecoveryStrategy::RetryWithDelay(100),
        PoKeysError::I2cBusError => RecoveryStrategy::ResetAndRetry,
        PoKeysError::I2cNack => RecoveryStrategy::RetryWithBackoff,
        PoKeysError::NetworkTimeout => RecoveryStrategy::RetryWithDelay(200),
        PoKeysError::Timeout => RecoveryStrategy::RetryWithDelay(100),
        PoKeysError::CommunicationError => RecoveryStrategy::RetryWithBackoff,
        _ => RecoveryStrategy::Fail,
    }
}

/// The return code that an error maps to.
pub open spec fn spec_return_code(e: &PoKeysError) -> ReturnCode {
    match e {
        PoKeysError::Generic => ReturnCode::ErrGeneric,
        PoKeysError::NotConnected => ReturnCode::ErrNotConnected,
        PoKeysError::Transfer(_) => ReturnCode::ErrTransfer,
        PoKeysError::Parameter(_) | PoKeysError::InvalidParameter => ReturnCode::ErrParameter,
        PoKeysError::NotSupported | PoKeysError::UnsupportedOperation => ReturnCode::ErrNotSupported,
        PoKeysError::CannotClaimUsb => ReturnCode::ErrCannotClaimUsb,
        PoKeysError::CannotConnect | PoKeysError::ConnectionFailed => ReturnCode::ErrCannotConnect,
        PoKeysError::UnsupportedPinCapability(_, _) | PoKeysError::MissingRelatedCapability(_, _, _)
        | PoKeysError::RelatedPinInactive(_, _) | PoKeysError::RelatedCapabilityError(_) => ReturnCode::ErrParameter,
        PoKeysError::I2cPacketTooLarge { .. } => ReturnCode::ErrParameter,
        PoKeysError::I2cTimeout | PoKeysError::I2cBusError | PoKeysError::I2cNack => ReturnCode::ErrTransfer,
        PoKeysError::NetworkTimeout => ReturnCode::ErrTransfer,
        PoKeysError::MaxRetriesExceeded => ReturnCode::ErrTransfer,
        PoKeysError::InvalidPacketStructure(_) | PoKeysError::InvalidCommand(_)
        | PoKeysError::InvalidDeviceId(_) | PoKeysError::InvalidChecksumDetailed { .. } => ReturnCode::ErrParameter,
        PoKeysError::InvalidSegmentMapping(_) | PoKeysError::SegmentMappingNotSupported
        | PoKeysError::CustomPinoutError(_) | PoKeysError::VirtualDeviceError(_)
        | PoKeysError::InvalidVirtualDeviceId { .. } => ReturnCode::ErrParameter,
        PoKeysError::USPIBridgeCommandFailed(_) => ReturnCode::ErrTransfer,
        _ => ReturnCode::ErrGeneric,
    }
}

/// Whether two errors are equal: same variant and equal fields; I/O errors are never equal.
pub open spec fn spec_error_eq(a: &PoKeysError, b: &PoKeysError) -> bool {
    match (a, b) {
        (PoKeysError::Generic, PoKeysError::Generic) => true,
        (PoKeysError::DeviceNotFound, PoKeysError::DeviceNotFound) => true,
        (PoKeysError::NotConnected, PoKeysError::NotConnected) => true,
        (PoKeysError::ConnectionFailed, PoKeysError::ConnectionFailed) => true,
        (PoKeysError::CommunicationError, PoKeysError::CommunicationError) => true,
        (PoKeysError::Transfer(x), PoKeysError::Transfer(y)) => x@ == y@,
        (PoKeysError::InvalidParameter, PoKeysError::InvalidParameter) => true,
        (PoKeysError::Parameter(x), PoKeysError::Parameter(y)) => x@ == y@,
        (PoKeysError::NotSupported, PoKeysError::NotSupported) => true,
        (PoKeysError::UnsupportedOperation, PoKeysError::UnsupportedOperation) => true,
        (PoKeysError::CannotClaimUsb, PoKeysError::CannotClaimUsb) => true,
        (PoKeysError::CannotConnect, PoKeysError::CannotConnect) => true,
        (PoKeysError::InvalidChecksum, PoKeysError::InvalidChecksum) => true,
        (PoKeysError::InvalidResponse, PoKeysError::InvalidResponse) => true,
        (PoKeysError::Timeout, PoKeysError::Timeout) => true,
        (PoKeysError::EnumerationFailed, PoKeysError::EnumerationFailed) => true,
        (PoKeysError::InvalidHandle, PoKeysError::InvalidHandle) => true,
        (PoKeysError::Protocol(x), PoKeysError::Protocol(y)) => x@ == y@,
        (PoKeysError::InternalError(x), PoKeysError::InternalError(y)) => x@ == y@,
        (PoKeysError::ModelLoadError(a1, b1), PoKeysError::ModelLoadError(a2, b2)) => a1@ == a2@ && b1@ == b2@,
        (PoKeysError::ModelParseError(a1, b1), PoKeysError::ModelParseError(a2, b2)) => a1@ == a2@ && b1@ == b2@,
        (PoKeysError::ModelValidationError(x), PoKeysError::ModelValidationError(y)) => x@ == y@,
        (PoKeysError::ModelDirCreateError(a1, b1), PoKeysError::ModelDirCreateError(a2, b2)) => a1@ == a2@ && b1@ == b2@,
        (PoKeysError::ModelDirReadError(a1, b1), PoKeysError::ModelDirReadError(a2, b2)) => a1@ == a2@ && b1@ == b2@,
        (PoKeysError::ModelWatcherError(x), PoKeysError::ModelWatcherError(y)) => x@ == y@,
        (PoKeysError::UnsupportedPinCapability(a1, b1), PoKeysError::UnsupportedPinCapability(a2, b2)) => a1 == a2 && b1@ == b2@,
        (PoKeysError::MissingRelatedCapability(a1, b1, c1), PoKeysError::MissingRelatedCapability(a2, b2, c2)) => a1 == a2 && b1@ == b2@ && c1@ == c2@,
        (PoKeysError::RelatedPinInactive(a1, b1), PoKeysError::RelatedPinInactive(a2, b2)) => a1 == a2 && b1@ == b2@,
        (PoKeysError::RelatedCapabilityError(x), PoKeysError::RelatedCapabilityError(y)) => x@ == y@,
        (PoKeysError::I2cPacketTooLarge { size: s1, max_size: m1, suggestion: g1 },
         PoKeysError::I2cPacketTooLarge { size: s2, max_size: m2, suggestion: g2 }) => s1 == s2 && m1 == m2 && g1@ == g2@,
        (PoKeysError::I2cTimeout, PoKeysError::I2cTimeout) => true,
        (PoKeysError::I2cBusError, PoKeysError::I2cBusError) => true,
        (PoKeysError::I2cNack, PoKeysError::I2cNack) => true,
        (PoKeysError::NetworkTimeout, PoKeysError::NetworkTimeout) => true,
        (PoKeysError::MaxRetriesExceeded, PoKeysError::MaxRetriesExceeded) => true,
        (PoKeysError::InvalidPacketStructure(x), PoKeysError::InvalidPacketStructure(y)) => x@ == y@,
        (PoKeysError::InvalidCommand(x), PoKeysError::InvalidCommand(y)) => x == y,
        (PoKeysError::InvalidDeviceId(x), PoKeysError::InvalidDeviceId(y)) => x == y,
        (PoKeysError::InvalidChecksumDetailed { expected: e1, received: r1 },
         PoKeysError::InvalidChecksumDetailed { expected: e2, received: r2 }) => e1 == e2 && r1 == r2,
        (PoKeysError::InvalidSegmentMapping(x), PoKeysError::InvalidSegmentMapping(y)) => x@ == y@,
        (PoKeysError::SegmentMappingNotSupported, PoKeysError::SegmentMappingNotSupported) => true,
        (PoKeysError::CustomPinoutError(x), PoKeysError::CustomPinoutError(y)) => x@ == y@,
        (PoKeysError::USPIBridgeCommandFailed(x), PoKeysError::USPIBridgeCommandFailed(y)) => x@ == y@,
        (PoKeysError::VirtualDeviceError(x), PoKeysError::VirtualDeviceError(y)) => x@ == y@,
        (PoKeysError::InvalidVirtualDeviceId { id: i1, max: m1 },
         PoKeysError::InvalidVirtualDeviceId { id: i2, max: m2 }) => i1 == i2 && m1 == m2,
        _ => false,
    }
}

impl PoKeysError {
    /// Check whether an error is recoverable through retry mechanisms.
    pub fn is_recoverable(&self) -> (r: bool)
        ensures
            r == spec_is_recoverable(self),
    {
        match self {
            PoKeysError::I2cTimeout | PoKeysError::I2cBusError | PoKeysError::I2cNack
            | PoKeysError::NetworkTimeout | PoKeysError::Timeout | PoKeysError::CommunicationError
            | PoKeysError::USPIBridgeCommandFailed(_) => true,
            _ => false,
        }
    }

    /// The recommended recovery strategy for this error.
    pub fn recovery_strategy(&self) -> (r: RecoveryStrategy)
        ensures
            r == spec_recovery_strategy(self),
    {
        match self {
            PoKeysError::I2cTimeout => RecoveryStrategy::RetryWithDelay(100),
            PoKeysError::I2cBusError => RecoveryStrategy::ResetAndRetry,
            PoKeysError::I2cNack => RecoveryStrategy::RetryWithBackoff,
            PoKeysError::NetworkTimeout => RecoveryStrategy::RetryWithDelay(200),
            PoKeysError::Timeout => RecoveryStrategy::RetryWithDelay(100),
            PoKeysError::CommunicationError => RecoveryStrategy::RetryWithBackoff,
            _ => RecoveryStrategy::Fail,
        }
    }

    /// The return code of the C library that this error maps to.
    pub fn return_code(&self) -> (r: ReturnCode)
        ensures
            r == spec_return_code(self),
    {
        match self {
            PoKeysError::Generic => ReturnCode::ErrGeneric,
            PoKeysError::NotConnected => ReturnCode::ErrNotConnected,
            PoKeysError::Transfer(_) => ReturnCode::ErrTransfer,
            PoKeysError::Parameter(_) | PoKeysError::InvalidParameter => ReturnCode::ErrParameter,
            PoKeysError::NotSupported | PoKeysError::UnsupportedOperation => ReturnCode::ErrNotSupported,
            PoKeysError::CannotClaimUsb => ReturnCode::ErrCannotClaimUsb,
            PoKeysError::CannotConnect | PoKeysError::ConnectionFailed => ReturnCode::ErrCannotConnect,
            PoKeysError::UnsupportedPinCapability(_, _) | PoKeysError::MissingRelatedCapability(_, _, _)
            | PoKeysError::RelatedPinInactive(_, _) | PoKeysError::RelatedCapabilityError(_) => ReturnCode::ErrParameter,
            PoKeysError::I2cPacketTooLarge { .. } => ReturnCode::ErrParameter,
            PoKeysError::I2cTimeout | PoKeysError::I2cBusError | PoKeysError::I2cNack => ReturnCode::ErrTransfer,
            PoKeysError::NetworkTimeout => ReturnCode::ErrTransfer,
            PoKeysError::MaxRetriesExceeded => ReturnCode::ErrTransfer,
            PoKeysError::InvalidPacketStructure(_) | PoKeysError::InvalidCommand(_)
            | PoKeysError::InvalidDeviceId(_) | PoKeysError::InvalidChecksumDetailed { .. } => ReturnCode::ErrParameter,
            PoKeysError::InvalidSegmentMapping(_) | PoKeysError::SegmentMappingNotSupported
            | PoKeysError::CustomPinoutError(_) | PoKeysError::VirtualDeviceError(_)
            | PoKeysError::InvalidVirtualDeviceId { .. } => ReturnCode::ErrParameter,
            PoKeysError::USPIBridgeCommandFailed(_) => ReturnCode::ErrTransfer,
            _ => ReturnCode::ErrGeneric,
        }
    }

    /// The error that a C-library return code stands for.
    pub fn from_return_code(code: ReturnCode) -> (r: PoKeysError)
        ensures
            is_error_of_code(code, &r),
    {
        proof {
            reveal_strlit("Transfer failed");
            reveal_strlit("Invalid parameter");
        }
        match code {
            ReturnCode::Success => PoKeysError::Generic,
            ReturnCode::ErrGeneric => PoKeysError::Generic,
            ReturnCode::ErrNotConnected => PoKeysError::NotConnected,
            ReturnCode::ErrTransfer => PoKeysError::Transfer(string_of("Transfer failed")),
            ReturnCode::ErrParameter => PoKeysError::Parameter(string_of("Invalid parameter")),
            ReturnCode::ErrNotSupported => PoKeysError::NotSupported,
            ReturnCode::ErrCannotClaimUsb => PoKeysError::CannotClaimUsb,
            ReturnCode::ErrCannotConnect => PoKeysError::CannotConnect,
        }
    }
}

/// Whether `e` is the error that a return code converts to.
pub open spec fn is_error_of_code(code: ReturnCode, e: &PoKeysError) -> bool {
    match code {
        ReturnCode::Success => *e is Generic,
        ReturnCode::ErrGeneric => *e is Generic,
        ReturnCode::ErrNotConnected => *e is NotConnected,
        ReturnCode::ErrTransfer => *e matches PoKeysError::Transfer(m) && m@ == "Transfer failed"@,
        ReturnCode::ErrParameter => *e matches PoKeysError::Parameter(m) && m@ == "Invalid parameter"@,
        ReturnCode::ErrNotSupported => *e is NotSupported,
        ReturnCode::ErrCannotClaimUsb => *e is CannotClaimUsb,
        ReturnCode::ErrCannotConnect => *e is CannotConnect,
    }
}

impl From<PoKeysError> for ReturnCode {
    fn from(error: PoKeysError) -> (r: ReturnCode) {
        error.return_code()
    }
}

impl vstd::std_specs::convert::FromSpecImpl<PoKeysError> for ReturnCode {
    open spec fn obeys_from_spec() -> bool {
        true
    }

    open spec fn from_spec(error: PoKeysError) -> ReturnCode {
        spec_return_code(&error)
    }
}

fn str_eq(a: &String, b: &String) -> (r: bool)
    ensures
        r == (a@ == b@),
{
    *a == *b
}

impl PartialEq for PoKeysError {
    fn eq(&self, other: &Self) -> (r: bool) {
        match (self, other) {
            (PoKeysError::Generic, PoKeysError::Generic) => true,
            (PoKeysError::DeviceNotFound, PoKeysError::DeviceNotFound) => true,
            (PoKeysError::NotConnected, PoKeysError::NotConnected) => true,
            (PoKeysError::ConnectionFailed, PoKeysError::ConnectionFailed) => true,
            (PoKeysError::CommunicationError, PoKeysError::CommunicationError) => true,
            (PoKeysError::Transfer(x), PoKeysError::Transfer(y)) => str_eq(x, y),
            (PoKeysError::InvalidParameter, PoKeysError::InvalidParameter) => true,
            (PoKeysError::Parameter(x), PoKeysError::Parameter(y)) => str_eq(x, y),
            (PoKeysError::NotSupported, PoKeysError::NotSupported) => true,
            (PoKeysError::UnsupportedOperation, PoKeysError::UnsupportedOperation) => true,
            (PoKeysError::CannotClaimUsb, PoKeysError::CannotClaimUsb) => true,
            (PoKeysError::CannotConnect, PoKeysError::CannotConnect) => true,
            (PoKeysError::InvalidChecksum, PoKeysError::InvalidChecksum) => true,
            (PoKeysError::InvalidResponse, PoKeysError::InvalidResponse) => true,
            (PoKeysError::Timeout, PoKeysError::Timeout) => true,
            (PoKeysError::EnumerationFailed, PoKeysError::EnumerationFailed) => true,
            (PoKeysError::InvalidHandle, PoKeysError::InvalidHandle) => true,
            (PoKeysError::Protocol(x), PoKeysError::Protocol(y)) => str_eq(x, y),
            (PoKeysError::InternalError(x), PoKeysError::InternalError(y)) => str_eq(x, y),
            (PoKeysError::ModelLoadError(a1, b1), PoKeysError::ModelLoadError(a2, b2)) => str_eq(a1, a2) && str_eq(b1, b2),
            (PoKeysError::ModelParseError(a1, b1), PoKeysError::ModelParseError(a2, b2)) => str_eq(a1, a2) && str_eq(b1, b2),
            (PoKeysError::ModelValidationError(x), PoKeysError::ModelValidationError(y)) => str_eq(x, y),
            (PoKeysError::ModelDirCreateError(a1, b1), PoKeysError::ModelDirCreateError(a2, b2)) => str_eq(a1, a2) && str_eq(b1, b2),
            (PoKeysError::ModelDirReadError(a1, b1), PoKeysError::ModelDirReadError(a2, b2)) => str_eq(a1, a2) && str_eq(b1, b2),
            (PoKeysError::ModelWatcherError(x), PoKeysError::ModelWatcherError(y)) => str_eq(x, y),
            (PoKeysError::UnsupportedPinCapability(a1, b1), PoKeysError::UnsupportedPinCapability(a2, b2)) => *a1 == *a2 && str_eq(b1, b2),
            (PoKeysError::MissingRelatedCapability(a1, b1, c1), PoKeysError::MissingRelatedCapability(a2, b2, c2)) => *a1 == *a2 && str_eq(b1, b2) && str_eq(c1, c2),
            (PoKeysError::RelatedPinInactive(a1, b1), PoKeysError::RelatedPinInactive(a2, b2)) => *a1 == *a2 && str_eq(b1, b2),
            (PoKeysError::RelatedCapabilityError(x), PoKeysError::RelatedCapabilityError(y)) => str_eq(x, y),
            (PoKeysError::I2cPacketTooLarge { size: s1, max_size: m1, suggestion: g1 },
             PoKeysError::I2cPacketTooLarge { size: s2, max_size: m2, suggestion: g2 }) => *s1 == *s2 && *m1 == *m2 && str_eq(g1, g2),
            (PoKeysError::I2cTimeout, PoKeysError::I2cTimeout) => true,
            (PoKeysError::I2cBusError, PoKeysError::I2cBusError) => true,
            (PoKeysError::I2cNack, PoKeysError::I2cNack) => true,
            (PoKeysError::NetworkTimeout, PoKeysError::NetworkTimeout) => true,
            (PoKeysError::MaxRetriesExceeded, PoKeysError::MaxRetriesExceeded) => true,
            (PoKeysError::InvalidPacketStructure(x), PoKeysError::InvalidPacketStructure(y)) => str_eq(x, y),
            (PoKeysError::InvalidCommand(x), PoKeysError::InvalidCommand(y)) => *x == *y,
            (PoKeysError::InvalidDeviceId(x), PoKeysError::InvalidDeviceId(y)) => *x == *y,
            (PoKeysError::InvalidChecksumDetailed { expected: e1, received: r1 },
             PoKeysError::InvalidChecksumDetailed { expected: e2, received: r2 }) => *e1 == *e2 && *r1 == *r2,
            (PoKeysError::InvalidSegmentMapping(x), PoKeysError::InvalidSegmentMapping(y)) => str_eq(x, y),
            (PoKeysError::SegmentMappingNotSupported, PoKeysError::SegmentMappingNotSupported) => true,
            (PoKeysError::CustomPinoutError(x), PoKeysError::CustomPinoutError(y)) => str_eq(x, y),
            (PoKeysError::USPIBridgeCommandFailed(x), PoKeysError::USPIBridgeCommandFailed(y)) => str_eq(x, y),
            (PoKeysError::VirtualDeviceError(x), PoKeysError::VirtualDeviceError(y)) => str_eq(x, y),
            (PoKeysError::InvalidVirtualDeviceId { id: i1, max: m1 },
             PoKeysError::InvalidVirtualDeviceId { id: i2, max: m2 }) => *i1 == *i2 && *m1 == *m2,
            _ => false,
        }
    }
}

impl vstd::std_specs::cmp::PartialEqSpecImpl for PoKeysError {
    open spec fn obeys_eq_spec() -> bool {
        true
    }

    open spec fn eq_spec(&self, other: &PoKeysError) -> bool {
        spec_error_eq(self, other)
    }
}


/// The message of an error. For `Io` this is only the prefix: the rest is the
/// operating system's text of the I/O error.
pub open spec fn error_text(e: &PoKeysError) -> Seq<char> {
    match e {
        PoKeysError::Generic => "Generic error"@,
        PoKeysError::DeviceNotFound => "Device not found"@,
        PoKeysError::NotConnected => "Device not connected"@,
        PoKeysError::ConnectionFailed => "Connection failed"@,
        PoKeysError::CommunicationError => "Communication error"@,
        PoKeysError::Transfer(m) => "Transfer error: "@ + m@,
        PoKeysError::InvalidParameter => "Invalid parameter"@,
        PoKeysError::Parameter(m) => "Invalid parameter: "@ + m@,
        PoKeysError::NotSupported => "Operation not supported"@,
        PoKeysError::UnsupportedOperation => "Unsupported operation"@,
        PoKeysError::CannotClaimUsb => "Cannot claim USB device"@,
        PoKeysError::CannotConnect => "Cannot connect to device"@,
        PoKeysError::InvalidChecksum => "Invalid checksum"@,
        PoKeysError::InvalidResponse => "Invalid response"@,
        PoKeysError::Timeout => "Timeout"@,
        PoKeysError::EnumerationFailed => "Device enumeration failed"@,
        PoKeysError::InvalidHandle => "Invalid device handle"@,
        PoKeysError::Protocol(m) => "Protocol error: "@ + m@,
        PoKeysError::InternalError(m) => "Internal error: "@ + m@,
        PoKeysError::ModelValidationError(m) => "Model validation error: "@ + m@,
        PoKeysError::ModelWatcherError(m) => "Model watcher error: "@ + m@,
        PoKeysError::RelatedCapabilityError(m) => "Related capability validation failed: "@ + m@,
        PoKeysError::PinConflict(m) => "Pin conflict: "@ + m@,
        PoKeysError::InvalidConfiguration(m) => "Invalid configuration: "@ + m@,
        PoKeysError::I2cTimeout => "I2C timeout"@,
        PoKeysError::I2cBusError => "I2C bus error"@,
        PoKeysError::I2cNack => "I2C NACK received"@,
        PoKeysError::NetworkTimeout => "Network timeout"@,
        PoKeysError::MaxRetriesExceeded => "Maximum retries exceeded"@,
        PoKeysError::InvalidPacketStructure(m) => "Invalid packet structure: "@ + m@,
        PoKeysError::InvalidSegmentMapping(m) => "Invalid segment mapping: "@ + m@,
        PoKeysError::SegmentMappingNotSupported => "Segment mapping not supported by device"@,
        PoKeysError::CustomPinoutError(m) => "Custom pinout configuration error: "@ + m@,
        PoKeysError::USPIBridgeCommandFailed(m) => "uSPIBridge command failed: "@ + m@,
        PoKeysError::VirtualDeviceError(m) => "Virtual device error: "@ + m@,
        PoKeysError::ModelLoadError(a, b) => "Failed to load model from "@ + a@ + ": "@ + b@,
        PoKeysError::ModelParseError(a, b) => "Failed to parse model from "@ + a@ + ": "@ + b@,
        PoKeysError::ModelDirCreateError(a, b) => "Failed to create model directory "@ + a@ + ": "@ + b@,
        PoKeysError::ModelDirReadError(a, b) => "Failed to read model directory "@ + a@ + ": "@ + b@,
        PoKeysError::UnsupportedPinCapability(p, c) => "Pin "@ + dec(*p as nat) + " does not support capability: "@ + c@,
        PoKeysError::MissingRelatedCapability(p, c, d) => "Missing related capability: Pin "@ + dec(*p as nat) + " with capability "@ + c@ + " requires "@ + d@,
        PoKeysError::RelatedPinInactive(p, c) => "Related pin "@ + dec(*p as nat) + " with capability "@ + c@ + " is inactive"@,
        PoKeysError::InvalidPin(p) => "Invalid pin: "@ + dec(*p as nat),
        PoKeysError::I2cPacketTooLarge { size, max_size, suggestion } => "I2C packet too large: "@ + dec(*size as nat) + " bytes (maximum "@ + dec(*max_size as nat) + " bytes). "@ + suggestion@,
        PoKeysError::InvalidCommand(c) => "Invalid command: 0x"@ + hex2(*c),
        PoKeysError::InvalidDeviceId(d) => "Invalid device ID: "@ + dec(*d as nat),
        PoKeysError::InvalidChecksumDetailed { expected, received } => "Invalid checksum: expected 0x"@ + hex2(*expected) + ", received 0x"@ + hex2(*received),
        PoKeysError::InvalidVirtualDeviceId { id, max } => "Invalid virtual device ID: "@ + dec(*id as nat) + " (maximum: "@ + dec(*max as nat) + ")"@,
        PoKeysError::Io(_) => "IO error: "@,
    }
}

/// The text of an I/O error, as its `Display` writes it.
///
/// Calls `<std::io::Error as Display>::fmt`. Nothing is stated of the text:
/// it is written by the operating system's error tables.
#[verifier::external_body]
fn io_error_text(e: &std::io::Error) -> (r: String) {
    format!("{}", e)
}

impl PoKeysError {
    /// The human-readable message of this error.
    pub fn to_string(&self) -> (r: String)
        ensures
            !(*self is Io) ==> r@ == error_text(self),
            *self is Io ==> r@.take(10) == error_text(self),
    {
        proof {
            reveal_strlit("IO error: ");
        }
        let r = match self {
            PoKeysError::Generic => string_of("Generic error"),
            PoKeysError::DeviceNotFound => string_of("Device not found"),
            PoKeysError::NotConnected => string_of("Device not connected"),
            PoKeysError::ConnectionFailed => string_of("Connection failed"),
            PoKeysError::CommunicationError => string_of("Communication error"),
            PoKeysError::Transfer(m) => { let mut s = string_of("Transfer error: "); s.append(m.as_str()); s },
            PoKeysError::InvalidParameter => string_of("Invalid parameter"),
            PoKeysError::Parameter(m) => { let mut s = string_of("Invalid parameter: "); s.append(m.as_str()); s },
            PoKeysError::NotSupported => string_of("Operation not supported"),
            PoKeysError::UnsupportedOperation => string_of("Unsupported operation"),
            PoKeysError::CannotClaimUsb => string_of("Cannot claim USB device"),
            PoKeysError::CannotConnect => string_of("Cannot connect to device"),
            PoKeysError::InvalidChecksum => string_of("Invalid checksum"),
            PoKeysError::InvalidResponse => string_of("Invalid response"),
            PoKeysError::Timeout => string_of("Timeout"),
            PoKeysError::EnumerationFailed => string_of("Device enumeration failed"),
            PoKeysError::InvalidHandle => string_of("Invalid device handle"),
            PoKeysError::Protocol(m) => { let mut s = string_of("Protocol error: "); s.append(m.as_str()); s },
            PoKeysError::InternalError(m) => { let mut s = string_of("Internal error: "); s.append(m.as_str()); s },
            PoKeysError::ModelValidationError(m) => { let mut s = string_of("Model validation error: "); s.append(m.as_str()); s },
            PoKeysError::ModelWatcherError(m) => { let mut s = string_of("Model watcher error: "); s.append(m.as_str()); s },
            PoKeysError::RelatedCapabilityError(m) => { let mut s = string_of("Related capability validation failed: "); s.append(m.as_str()); s },
            PoKeysError::PinConflict(m) => { let mut s = string_of("Pin conflict: "); s.append(m.as_str()); s },
            PoKeysError::InvalidConfiguration(m) => { let mut s = string_of("Invalid configuration: "); s.append(m.as_str()); s },
            PoKeysError::I2cTimeout => string_of("I2C timeout"),
            PoKeysError::I2cBusError => string_of("I2C bus error"),
            PoKeysError::I2cNack => string_of("I2C NACK received"),
            PoKeysError::NetworkTimeout => string_of("Network timeout"),
            PoKeysError::MaxRetriesExceeded => string_of("Maximum retries exceeded"),
            PoKeysError::InvalidPacketStructure(m) => { let mut s = string_of("Invalid packet structure: "); s.append(m.as_str()); s },
            PoKeysError::InvalidSegmentMapping(m) => { let mut s = string_of("Invalid segment mapping: "); s.append(m.as_str()); s },
            PoKeysError::SegmentMappingNotSupported => string_of("Segment mapping not supported by device"),
            PoKeysError::CustomPinoutError(m) => { let mut s = string_of("Custom pinout configuration error: "); s.append(m.as_str()); s },
            PoKeysError::USPIBridgeCommandFailed(m) => { let mut s = string_of("uSPIBridge command failed: "); s.append(m.as_str()); s },
            PoKeysError::VirtualDeviceError(m) => { let mut s = string_of("Virtual device error: "); s.append(m.as_str()); s },
            PoKeysError::ModelLoadError(a, b) => { let mut s = string_of("Failed to load model from "); s.append(a.as_str()); s.append(": "); s.append(b.as_str()); s },
            PoKeysError::ModelParseError(a, b) => { let mut s = string_of("Failed to parse model from "); s.append(a.as_str()); s.append(": "); s.append(b.as_str()); s },
            PoKeysError::ModelDirCreateError(a, b) => { let mut s = string_of("Failed to create model directory "); s.append(a.as_str()); s.append(": "); s.append(b.as_str()); s },
            PoKeysError::ModelDirReadError(a, b) => { let mut s = string_of("Failed to read model directory "); s.append(a.as_str()); s.append(": "); s.append(b.as_str()); s },
            PoKeysError::UnsupportedPinCapability(p, c) => { let mut s = string_of("Pin "); push_dec(&mut s, *p as u64); s.append(" does not support capability: "); s.append(c.as_str()); s },
            PoKeysError::MissingRelatedCapability(p, c, d) => { let mut s = string_of("Missing related capability: Pin "); push_dec(&mut s, *p as u64); s.append(" with capability "); s.append(c.as_str()); s.append(" requires "); s.append(d.as_str()); s },
            PoKeysError::RelatedPinInactive(p, c) => { let mut s = string_of("Related pin "); push_dec(&mut s, *p as u64); s.append(" with capability "); s.append(c.as_str()); s.append(" is inactive"); s },
            PoKeysError::InvalidPin(p) => { let mut s = string_of("Invalid pin: "); push_dec(&mut s, *p as u64); s },
            PoKeysError::I2cPacketTooLarge { size, max_size, suggestion } => { let mut s = string_of("I2C packet too large: "); push_dec(&mut s, *size as u64); s.append(" bytes (maximum "); push_dec(&mut s, *max_size as u64); s.append(" bytes). "); s.append(suggestion.as_str()); s },
            PoKeysError::InvalidCommand(c) => { let mut s = string_of("Invalid command: 0x"); push_hex2(&mut s, *c); s },
            PoKeysError::InvalidDeviceId(d) => { let mut s = string_of("Invalid device ID: "); push_dec(&mut s, *d as u64); s },
            PoKeysError::InvalidChecksumDetailed { expected, received } => { let mut s = string_of("Invalid checksum: expected 0x"); push_hex2(&mut s, *expected); s.append(", received 0x"); push_hex2(&mut s, *received); s },
            PoKeysError::InvalidVirtualDeviceId { id, max } => { let mut s = string_of("Invalid virtual device ID: "); push_dec(&mut s, *id as u64); s.append(" (maximum: "); push_dec(&mut s, *max as u64); s.append(")"); s },
            PoKeysError::Io(e) => { let mut s = string_of("IO error: "); let d = io_error_text(e); s.append(d.as_str()); s },
        };
        proof {
            if *self is Io {
                assert(r@.take(10) =~= "IO error: "@);
            }
        }
        r
    }
}

} // verus!
