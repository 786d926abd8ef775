//! Objects of the Vulkan API.
use crate::device::Device;
use std::ops::Deref;
use std::sync::Arc;
use vstd::prelude::*;

verus! {

/// Reads `ash::vk::Device::TYPE`, by which ash says that a device is an `ObjectType::DEVICE`: that
/// constant is the number 3.
#[verifier::external_body]
fn device_type_number() -> (number: i32)
    ensures
        number == 3,
{
    <ash::vk::Device as ash::vk::Handle>::TYPE.as_raw()
}

/// Implemented on objects that have a handle of their own.
pub trait VulkanObject {
    /// Returns the number by which Vulkan knows the type of the object.
    fn object_type() -> (number: i32);

    /// Returns the handle of the object.
    fn internal_object(&self) -> (handle: u64);
}

/// Implemented on objects that belong to a Vulkan device.
pub trait DeviceOwned {
    /// Returns the device that owns `Self`.
    fn device(&self) -> (device: &Arc<Device>);
}

impl<T> DeviceOwned for T where T: Deref, T::Target: DeviceOwned {
    fn device(&self) -> (device: &Arc<Device>)
        ensures
            exists|target: &T::Target|
                call_ensures(T::deref, (self,), target) && #[trigger] call_ensures(
                    <T::Target as DeviceOwned>::device,
                    (target,),
                    device,
                ),
    {
        let target = self.deref();
        target.device()
    }
}

impl VulkanObject for Device {
    fn object_type() -> (number: i32)
        ensures
            number == 3,
    {
        device_type_number()
    }

    fn internal_object(&self) -> (handle: u64)
        ensures
            handle == self@.handle,
    {
        self.handle()
    }
}

} // verus!
