use vulkano_device::{
    check_errors, DebugUtilsError, DeviceCreationError, Error, ExtensionRestriction,
    ExtensionRestrictionError, FeatureRestriction, FeatureRestrictionError,
    MemoryFdPropertiesError, OneOfRequirements,
};

#[test]
fn codes_of_the_driver() {
    for code in [0, 1, 2, 5, i32::MAX] {
        assert_eq!(check_errors(code), Ok(()));
    }
    for (code, error) in [
        (-1, Error::OutOfHostMemory),
        (-2, Error::OutOfDeviceMemory),
        (-3, Error::InitializationFailed),
        (-4, Error::DeviceLost),
        (-7, Error::ExtensionNotPresent),
        (-8, Error::FeatureNotPresent),
        (-10, Error::TooManyObjects),
        (-1000072003, Error::InvalidExternalHandle),
        (-5, Error::Other(-5)),
        (i32::MIN, Error::Other(i32::MIN)),
    ] {
        assert_eq!(check_errors(code), Err(error));
    }
}

#[test]
fn messages_of_creation_errors() {
    for (error, message) in [
        (
            DeviceCreationError::InitializationFailed,
            "failed to create the device for an implementation-specific reason",
        ),
        (DeviceCreationError::OutOfHostMemory, "no memory available on the host"),
        (DeviceCreationError::OutOfDeviceMemory, "no memory available on the graphical device"),
        (DeviceCreationError::DeviceLost, "failed to connect to the device"),
        (
            DeviceCreationError::TooManyQueuesForFamily,
            "tried to create too many queues for a given family",
        ),
        (
            DeviceCreationError::FeatureNotPresent,
            "some of the requested features are unsupported by the physical device",
        ),
        (
            DeviceCreationError::PriorityOutOfRange,
            "the priority of one of the queues is out of the [0.0; 1.0] range",
        ),
        (
            DeviceCreationError::ExtensionNotPresent,
            "some of the requested device extensions are not supported by the physical device",
        ),
        (
            DeviceCreationError::TooManyObjects,
            "you have reached the limit to the number of devices that can be created from the same physical device",
        ),
    ] {
        assert_eq!(error.message(), message);
    }
}

#[test]
fn messages_of_restrictions() {
    let extension = |restriction| {
        DeviceCreationError::from(ExtensionRestrictionError { extension: "VK_A", restriction })
            .message()
    };
    assert_eq!(
        extension(ExtensionRestriction::NotSupported),
        "a restriction for the extension VK_A was not met: not supported by the loader or physical device"
    );
    assert_eq!(
        extension(ExtensionRestriction::RequiredIfSupported),
        "a restriction for the extension VK_A was not met: required to be enabled by the physical device"
    );
    assert_eq!(
        extension(ExtensionRestriction::ConflictsDeviceExtension("VK_B")),
        "a restriction for the extension VK_A was not met: requires device extension VK_B to be disabled"
    );
    assert_eq!(
        extension(ExtensionRestriction::Requires(OneOfRequirements {
            api_version: None,
            device_extensions: &["VK_B"],
            instance_extensions: &[],
        })),
        "a restriction for the extension VK_A was not met: requires a newer version of Vulkan or another extension to be enabled"
    );
    let feature = |restriction| {
        DeviceCreationError::from(FeatureRestrictionError { feature: "a", restriction }).message()
    };
    assert_eq!(
        feature(FeatureRestriction::NotSupported),
        "a restriction for the feature a was not met: not supported by the physical device"
    );
    assert_eq!(
        feature(FeatureRestriction::RequiresFeature("b")),
        "a restriction for the feature a was not met: requires feature b to be enabled"
    );
    assert_eq!(
        feature(FeatureRestriction::ConflictsFeature("b")),
        "a restriction for the feature a was not met: requires feature b to be disabled"
    );
    assert_eq!(
        feature(FeatureRestriction::RequiredByExtension("VK_B")),
        "a restriction for the feature a was not met: required to be enabled by extension VK_B"
    );
}

#[test]
fn messages_of_other_errors() {
    assert_eq!(
        MemoryFdPropertiesError::OutOfHostMemory.message(),
        "no memory available on the host"
    );
    assert_eq!(
        MemoryFdPropertiesError::InvalidExternalHandle.message(),
        "the provided external handle was not valid"
    );
    assert_eq!(
        MemoryFdPropertiesError::InvalidExternalHandleType.message(),
        "the provided external handle type was not valid"
    );
    assert_eq!(
        MemoryFdPropertiesError::NotSupported.message(),
        "the `khr_external_memory_fd` extension was not enabled on the device"
    );
    assert_eq!(
        DebugUtilsError::ExtensionNotEnabled { extension: "a", reason: "b" }.message(),
        "the extension a must be enabled: b"
    );
}
