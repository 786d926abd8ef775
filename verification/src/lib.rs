//! Communication channels with physical devices.
//!
//! The [`Device`] is one of the most important objects of Vulkan. Creating a `Device` is required
//! before you can create buffers, textures, shaders, etc.
//!
//! This library decides what a device is asked for and what becomes of the answers; it never calls
//! the driver itself. Where the driver has to be called, a function takes the call as an argument,
//! and its contract says what the call is given and what follows from each reply.
//!
//! # Features and extensions
//!
//! Two of the things that you ask for when you create a device are the features and the extensions
//! to enable on it. Some Vulkan capabilities, such as swapchains or geometry shaders, require that
//! you enable a certain feature or extension when you create the device. Not all physical devices
//! support all features and extensions, and what is not supported is refused. So what is enabled
//! on a device never turns out not to be supported later on.
//!
//! # Queues
//!
//! Each physical device proposes one or more *queues* that are divided in *queue families*. A queue
//! is a thread of execution to which you can submit commands that the GPU will execute. The queues
//! that you are going to use are asked for when you create the device, each with a number between
//! 0.0 and 1.0 that indicates the priority of its execution relative to the others.
pub use create::{
    DeviceCreateInfo, DevicePlan, DeviceQueueCreateInfo, QueueCreateInfo,
};
pub use device::{Device, ExternalMemoryHandleType, MemoryFdProperties};
pub use error::{
    check_errors, DebugUtilsError, DeviceCreationError, Error, MemoryFdPropertiesError, OomError,
};
pub use extensions::{
    DeviceExtensions, ExtensionRestriction, ExtensionRestrictionError, ExtensionRule,
    InstanceExtensions, OneOfRequirements,
};
pub use features::{FeatureRestriction, FeatureRestrictionError, FeatureRule, Features};
pub use lists::QueueToGet;
pub use object::{DeviceOwned, VulkanObject};
pub use physical::{
    Instance, PhysicalDevice, PhysicalDeviceInfo, QueueFamily, QueueFamilyInfo, Registry,
};
pub use pools::Destruction;
pub use priority::QueuePriority;
pub use queue::{DebugUtilsLabel, Queue};
pub use version::Version;

pub mod calls;
pub mod create;
pub mod device;
pub mod error;
pub mod extensions;
pub mod features;
pub mod hashing;
pub mod laws;
pub mod lists;
pub mod meaning;
pub mod names;
pub mod object;
pub mod physical;
pub mod pools;
pub mod priority;
pub mod queue;
pub mod version;
