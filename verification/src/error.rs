//! What can go wrong.
use crate::extensions::ExtensionRestrictionError;
use crate::features::FeatureRestrictionError;
use ash::vk;
use vstd::prelude::*;
use vstd::string::StringExecFns;

verus! {

/// The error codes that a Vulkan function can return.
#[derive(Clone, Copy, Debug, PartialEq, Eq, Structural)]
pub enum Error {
    OutOfHostMemory,
    OutOfDeviceMemory,
    InitializationFailed,
    DeviceLost,
    ExtensionNotPresent,
    FeatureNotPresent,
    TooManyObjects,
    InvalidExternalHandle,
    /// Any other error code.
    Other(i32),
}

impl Error {
    /// The error that an error code stands for.
    pub open spec fn of_code(code: i32) -> Error {
        if code == -1 {
            Error::OutOfHostMemory
        } else if code == -2 {
            Error::OutOfDeviceMemory
        } else if code == -3 {
            Error::InitializationFailed
        } else if code == -4 {
            Error::DeviceLost
        } else if code == -7 {
            Error::ExtensionNotPresent
        } else if code == -8 {
            Error::FeatureNotPresent
        } else if code == -10 {
            Error::TooManyObjects
        } else if code == -1000072003 {
            Error::InvalidExternalHandle
        } else {
            Error::Other(code)
        }
    }

    /// Calls `ash::vk::Result::from_raw` and tells apart the constants of `ash::vk::Result`: the
    /// contract claims which code each of the eight constants has.
    #[verifier::external_body]
    fn from_code(code: i32) -> (error: Error)
        ensures
            error == Error::of_code(code),
    {
        match vk::Result::from_raw(code) {
            vk::Result::ERROR_OUT_OF_HOST_MEMORY => Error::OutOfHostMemory,
            vk::Result::ERROR_OUT_OF_DEVICE_MEMORY => Error::OutOfDeviceMemory,
            vk::Result::ERROR_INITIALIZATION_FAILED => Error::InitializationFailed,
            vk::Result::ERROR_DEVICE_LOST => Error::DeviceLost,
            vk::Result::ERROR_EXTENSION_NOT_PRESENT => Error::ExtensionNotPresent,
            vk::Result::ERROR_FEATURE_NOT_PRESENT => Error::FeatureNotPresent,
            vk::Result::ERROR_TOO_MANY_OBJECTS => Error::TooManyObjects,
            vk::Result::ERROR_INVALID_EXTERNAL_HANDLE => Error::InvalidExternalHandle,
            other => Error::Other(other.as_raw()),
        }
    }
}

/// What the code that a Vulkan function returned says: the codes below zero are errors.
pub fn check_errors(code: i32) -> (checked: Result<(), Error>)
    ensures
        checked == if code < 0 {
            Err::<(), Error>(Error::of_code(code))
        } else {
            Ok(())
        },
{
    if code < 0 {
        Err(Error::from_code(code))
    } else {
        Ok(())
    }
}

/// There is no memory left.
#[derive(Clone, Copy, Debug, PartialEq, Eq, Structural)]
pub enum OomError {
    /// There is no memory available on the host (ie. the CPU, RAM, etc.).
    OutOfHostMemory,
    /// There is no memory available on the device (ie. video memory).
    OutOfDeviceMemory,
}

impl OomError {
    /// What an error is here; `None` where it must not occur.
    pub open spec fn of(error: Error) -> Option<OomError> {
        match error {
            Error::OutOfHostMemory => Some(OomError::OutOfHostMemory),
            Error::OutOfDeviceMemory => Some(OomError::OutOfDeviceMemory),
            _ => None,
        }
    }

    /// Whether the error is one that may occur.
    pub fn expects(error: Error) -> (expected: bool)
        ensures
            expected == (OomError::of(error) is Some),
    {
        match error {
            Error::OutOfHostMemory => true,
            Error::OutOfDeviceMemory => true,
            _ => false,
        }
    }

    /// Narrows down an error that may occur.
    pub fn from_error(error: Error) -> (narrowed: Self)
        requires
            OomError::of(error) is Some,
        ensures
            Some(narrowed) == OomError::of(error),
    {
        match error {
            Error::OutOfHostMemory => OomError::OutOfHostMemory,
            _ => OomError::OutOfDeviceMemory,
        }
    }

    /// Whether `checked` is what becomes of the reply of a Vulkan function that can only run out
    /// of memory.
    pub open spec fn is_outcome(reply: Result<(), Error>, checked: Result<(), OomError>) -> bool {
        match reply {
            Ok(()) => checked == Ok::<(), OomError>(()),
            Err(error) => checked is Err && Some(checked->Err_0) == OomError::of(error),
        }
    }

    /// What becomes of the reply of a Vulkan function that can only run out of memory.
    pub fn check(reply: Result<(), Error>) -> (checked: Result<(), OomError>)
        requires
            reply matches Err(error) ==> OomError::of(error) is Some,
        ensures
            OomError::is_outcome(reply, checked),
    {
        match reply {
            Ok(()) => Ok(()),
            Err(error) => Err(OomError::from_error(error)),
        }
    }
}

/// Error that can be returned when creating a device.
#[derive(Clone, Copy, Debug)]
pub enum DeviceCreationError {
    /// Failed to create the device for an implementation-specific reason.
    InitializationFailed,
    /// You have reached the limit to the number of devices that can be created from the same
    /// physical device.
    TooManyObjects,
    /// Failed to connect to the device.
    DeviceLost,
    /// Some of the requested features are unsupported by the physical device.
    FeatureNotPresent,
    /// Some of the requested device extensions are not supported by the physical device.
    ExtensionNotPresent,
    /// Tried to create too many queues for a given family.
    TooManyQueuesForFamily,
    /// The priority of one of the queues is out of the [0.0; 1.0] range.
    PriorityOutOfRange,
    /// There is no memory available on the host (ie. the CPU, RAM, etc.).
    OutOfHostMemory,
    /// There is no memory available on the device (ie. video memory).
    OutOfDeviceMemory,
    /// A restriction for an extension was not met.
    ExtensionRestrictionNotMet(ExtensionRestrictionError),
    /// A restriction for a feature was not met.
    FeatureRestrictionNotMet(FeatureRestrictionError),
}

impl DeviceCreationError {
    /// What an error is here; `None` where it must not occur.
    pub open spec fn of(error: Error) -> Option<DeviceCreationError> {
        match error {
            Error::InitializationFailed => Some(DeviceCreationError::InitializationFailed),
            Error::OutOfHostMemory => Some(DeviceCreationError::OutOfHostMemory),
            Error::OutOfDeviceMemory => Some(DeviceCreationError::OutOfDeviceMemory),
            Error::DeviceLost => Some(DeviceCreationError::DeviceLost),
            Error::ExtensionNotPresent => Some(DeviceCreationError::ExtensionNotPresent),
            Error::FeatureNotPresent => Some(DeviceCreationError::FeatureNotPresent),
            Error::TooManyObjects => Some(DeviceCreationError::TooManyObjects),
            Error::InvalidExternalHandle => None,
            Error::Other(_) => None,
        }
    }

    /// Whether the error is one that may occur.
    pub fn expects(error: Error) -> (expected: bool)
        ensures
            expected == (DeviceCreationError::of(error) is Some),
    {
        match error {
            Error::InvalidExternalHandle => false,
            Error::Other(_) => false,
            _ => true,
        }
    }

    /// Narrows down an error that may occur.
    pub fn from_error(error: Error) -> (narrowed: Self)
        requires
            DeviceCreationError::of(error) is Some,
        ensures
            Some(narrowed) == DeviceCreationError::of(error),
    {
        match error {
            Error::InitializationFailed => DeviceCreationError::InitializationFailed,
            Error::OutOfHostMemory => DeviceCreationError::OutOfHostMemory,
            Error::OutOfDeviceMemory => DeviceCreationError::OutOfDeviceMemory,
            Error::DeviceLost => DeviceCreationError::DeviceLost,
            Error::ExtensionNotPresent => DeviceCreationError::ExtensionNotPresent,
            Error::FeatureNotPresent => DeviceCreationError::FeatureNotPresent,
            _ => DeviceCreationError::TooManyObjects,
        }
    }

    /// The error in words.
    pub open spec fn text(self) -> Seq<char> {
        match self {
            DeviceCreationError::InitializationFailed => {
                "failed to create the device for an implementation-specific reason"@
            },
            DeviceCreationError::OutOfHostMemory => "no memory available on the host"@,
            DeviceCreationError::OutOfDeviceMemory => {
                "no memory available on the graphical device"@
            },
            DeviceCreationError::DeviceLost => "failed to connect to the device"@,
            DeviceCreationError::TooManyQueuesForFamily => {
                "tried to create too many queues for a given family"@
            },
            DeviceCreationError::FeatureNotPresent => {
                "some of the requested features are unsupported by the physical device"@
            },
            DeviceCreationError::PriorityOutOfRange => {
                "the priority of one of the queues is out of the [0.0; 1.0] range"@
            },
            DeviceCreationError::ExtensionNotPresent => {
                "some of the requested device extensions are not supported by the physical device"@
            },
            DeviceCreationError::TooManyObjects => {
                "you have reached the limit to the number of devices that can be created from the same physical device"@
            },
            DeviceCreationError::ExtensionRestrictionNotMet(error) => error.text(),
            DeviceCreationError::FeatureRestrictionNotMet(error) => error.text(),
        }
    }

    /// The error in words.
    pub fn message(&self) -> (message: String)
        ensures
            message@ == self.text(),
    {
        match *self {
            DeviceCreationError::InitializationFailed => {
                "failed to create the device for an implementation-specific reason".to_owned()
            },
            DeviceCreationError::OutOfHostMemory => "no memory available on the host".to_owned(),
            DeviceCreationError::OutOfDeviceMemory => {
                "no memory available on the graphical device".to_owned()
            },
            DeviceCreationError::DeviceLost => "failed to connect to the device".to_owned(),
            DeviceCreationError::TooManyQueuesForFamily => {
                "tried to create too many queues for a given family".to_owned()
            },
            DeviceCreationError::FeatureNotPresent => {
                "some of the requested features are unsupported by the physical device".to_owned()
            },
            DeviceCreationError::PriorityOutOfRange => {
                "the priority of one of the queues is out of the [0.0; 1.0] range".to_owned()
            },
            DeviceCreationError::ExtensionNotPresent => {
                "some of the requested device extensions are not supported by the physical device".to_owned()
            },
            DeviceCreationError::TooManyObjects => {
                "you have reached the limit to the number of devices that can be created from the same physical device".to_owned()
            },
            DeviceCreationError::ExtensionRestrictionNotMet(error) => error.message(),
            DeviceCreationError::FeatureRestrictionNotMet(error) => error.message(),
        }
    }
}

impl From<ExtensionRestrictionError> for DeviceCreationError {
    fn from(error: ExtensionRestrictionError) -> (wrapped: Self) {
        DeviceCreationError::ExtensionRestrictionNotMet(error)
    }
}

impl vstd::std_specs::convert::FromSpecImpl<ExtensionRestrictionError> for DeviceCreationError {
    open spec fn obeys_from_spec() -> bool {
        true
    }

    open spec fn from_spec(error: ExtensionRestrictionError) -> Self {
        DeviceCreationError::ExtensionRestrictionNotMet(error)
    }
}

impl From<FeatureRestrictionError> for DeviceCreationError {
    fn from(error: FeatureRestrictionError) -> (wrapped: Self) {
        DeviceCreationError::FeatureRestrictionNotMet(error)
    }
}

impl vstd::std_specs::convert::FromSpecImpl<FeatureRestrictionError> for DeviceCreationError {
    open spec fn obeys_from_spec() -> bool {
        true
    }

    open spec fn from_spec(error: FeatureRestrictionError) -> Self {
        DeviceCreationError::FeatureRestrictionNotMet(error)
    }
}

/// Error that can happen when calling `memory_fd_properties`.
#[derive(Clone, Copy, Debug, PartialEq, Eq, Structural)]
pub enum MemoryFdPropertiesError {
    /// No memory available on the host.
    OutOfHostMemory,
    /// The provided external handle was not valid.
    InvalidExternalHandle,
    /// The provided external handle type was not valid.
    InvalidExternalHandleType,
    /// The `khr_external_memory_fd` extension was not enabled on the device.
    NotSupported,
}

impl MemoryFdPropertiesError {
    /// What an error is here; `None` where it must not occur.
    pub open spec fn of(error: Error) -> Option<MemoryFdPropertiesError> {
        match error {
            Error::OutOfHostMemory => Some(MemoryFdPropertiesError::OutOfHostMemory),
            Error::InvalidExternalHandle => Some(MemoryFdPropertiesError::InvalidExternalHandle),
            _ => None,
        }
    }

    /// Whether the error is one that may occur.
    pub fn expects(error: Error) -> (expected: bool)
        ensures
            expected == (MemoryFdPropertiesError::of(error) is Some),
    {
        match error {
            Error::OutOfHostMemory => true,
            Error::InvalidExternalHandle => true,
            _ => false,
        }
    }

    /// Narrows down an error that may occur.
    pub fn from_error(error: Error) -> (narrowed: Self)
        requires
            MemoryFdPropertiesError::of(error) is Some,
        ensures
            Some(narrowed) == MemoryFdPropertiesError::of(error),
    {
        match error {
            Error::OutOfHostMemory => MemoryFdPropertiesError::OutOfHostMemory,
            _ => MemoryFdPropertiesError::InvalidExternalHandle,
        }
    }

    /// The error in words.
    pub open spec fn text(self) -> Seq<char> {
        match self {
            MemoryFdPropertiesError::OutOfHostMemory => "no memory available on the host"@,
            MemoryFdPropertiesError::InvalidExternalHandle => {
                "the provided external handle was not valid"@
            },
            MemoryFdPropertiesError::InvalidExternalHandleType => {
                "the provided external handle type was not valid"@
            },
            MemoryFdPropertiesError::NotSupported => {
                "the `khr_external_memory_fd` extension was not enabled on the device"@
            },
        }
    }

    /// The error in words.
    pub fn message(&self) -> (message: String)
        ensures
            message@ == self.text(),
    {
        match *self {
            MemoryFdPropertiesError::OutOfHostMemory => {
                "no memory available on the host".to_owned()
            },
            MemoryFdPropertiesError::InvalidExternalHandle => {
                "the provided external handle was not valid".to_owned()
            },
            MemoryFdPropertiesError::InvalidExternalHandleType => {
                "the provided external handle type was not valid".to_owned()
            },
            MemoryFdPropertiesError::NotSupported => {
                "the `khr_external_memory_fd` extension was not enabled on the device".to_owned()
            },
        }
    }
}

/// Error that can happen when submitting a debug utils command to a queue.
#[derive(Clone, Copy, Debug)]
pub enum DebugUtilsError {
    ExtensionNotEnabled { extension: &'static str, reason: &'static str },
}

impl DebugUtilsError {
    /// The error in words.
    pub open spec fn text(self) -> Seq<char> {
        match self {
            DebugUtilsError::ExtensionNotEnabled { extension, reason } => {
                "the extension "@ + extension@ + " must be enabled: "@ + reason@
            },
        }
    }

    /// The error in words.
    pub fn message(&self) -> (message: String)
        ensures
            message@ == self.text(),
    {
        match *self {
            DebugUtilsError::ExtensionNotEnabled { extension, reason } => {
                "the extension ".to_owned().concat(extension).concat(" must be enabled: ").concat(
                    reason,
                )
            },
        }
    }
}

} // verus!
