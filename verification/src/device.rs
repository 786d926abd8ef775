//! Communication channel with a physical device.
use crate::create::{DeviceCreateInfo, DevicePlan};
use crate::error::{DeviceCreationError, Error, MemoryFdPropertiesError, OomError};
use crate::extensions::{DeviceExtensions, KHR_EXTERNAL_MEMORY_FD};
use crate::features::Features;
use crate::hashing::feed_u64;
use crate::lists::{FamilyIds, QueueList};
use crate::object::{DeviceOwned, VulkanObject};
use crate::physical::{Instance, PhysicalDevice, QueueFamily};
use crate::queue::Queue;
use crate::version::Version;
use std::hash::{Hash, Hasher};
use std::sync::Arc;
use vstd::prelude::*;

verus! {

/// Represents a Vulkan context.
#[derive(Debug)]
pub struct Device {
    handle: u64,
    instance: Arc<Instance>,
    physical_device: usize,
    // The highest version that is supported for this device.
    // This is the minimum of Instance::max_api_version and PhysicalDeviceInfo::api_version.
    api_version: Version,
    enabled_extensions: DeviceExtensions,
    enabled_features: Features,
    active_queue_families: FamilyIds,
}

/// What a `Device` stands for.
pub struct DeviceView {
    pub handle: u64,
    pub physical_device: crate::physical::PhysicalDeviceView,
    pub api_version: Version,
    pub enabled_extensions: Seq<&'static str>,
    pub enabled_features: Seq<&'static str>,
    pub active_queue_families: Seq<u32>,
}

impl DeviceView {
    /// Whether the device is of a physical device that there is, and its active queue families are
    /// of that physical device, each listed once, the lower id first.
    pub open spec fn wf(self) -> bool {
        &&& self.physical_device.wf()
        &&& crate::create::strictly_ascending(self.active_queue_families)
        &&& forall|i: int|
            0 <= i < self.active_queue_families.len() ==> (#[trigger] self.active_queue_families[i])
                < self.physical_device.info().queue_families@.len()
    }

    /// Whether two devices are the same: the handles of the devices and of their instances are.
    pub open spec fn same_as(self, other: DeviceView) -> bool {
        &&& self.handle == other.handle
        &&& self.physical_device.instance.handle == other.physical_device.instance.handle
    }

    /// What the hash of the device is made from.
    pub open spec fn hash_input(self) -> (u64, u64) {
        (self.handle, self.physical_device.instance.handle)
    }
}

impl View for Device {
    type V = DeviceView;

    closed spec fn view(&self) -> DeviceView {
        DeviceView {
            handle: self.handle,
            physical_device: crate::physical::PhysicalDeviceView {
                instance: *self.instance,
                index: self.physical_device as nat,
            },
            api_version: self.api_version,
            enabled_extensions: self.enabled_extensions@,
            enabled_features: self.enabled_features@,
            active_queue_families: self.active_queue_families@,
        }
    }
}

impl<'a> DevicePlan<'a> {
    /// What the planned device is, once the driver has given it that handle.
    pub open spec fn device(self, handle: u64) -> DeviceView {
        DeviceView {
            handle,
            physical_device: self.physical_device@,
            api_version: self.api_version,
            enabled_extensions: self.enabled_extensions@,
            enabled_features: self.enabled_features@,
            active_queue_families: self.active_queue_families@,
        }
    }

    /// Whether the plan leads to a sound device, which has all of the queues to get.
    pub open spec fn wf(self) -> bool {
        &&& self.device(0).wf()
        &&& forall|i: int|
            0 <= i < self.queues_to_get@.len() ==> (#[trigger] self.queues_to_get@[i]).is_of(
                self.device(0),
            )
    }
}

impl Device {
    /// What holds of every device.
    #[verifier::type_invariant]
    pub open spec fn inv(self) -> bool {
        self@.wf()
    }

    /// Makes the planned device from what the driver replied: the handle of the device, or an
    /// error.
    pub fn from_plan(plan: DevicePlan<'_>, reply: Result<u64, Error>) -> (created: Result<
        (Arc<Device>, QueueList),
        DeviceCreationError,
    >)
        requires
            plan.wf(),
            reply matches Err(error) ==> DeviceCreationError::of(error) is Some,
        ensures
            match reply {
                Ok(handle) => {
                    &&& created is Ok
                    &&& created->Ok_0.0@ == plan.device(handle)
                    &&& created->Ok_0.0@.handle == handle
                    &&& created->Ok_0.0@.physical_device == plan.physical_device@
                    &&& created->Ok_0.0@.api_version == plan.api_version
                    &&& created->Ok_0.0@.enabled_extensions == plan.enabled_extensions@
                    &&& created->Ok_0.0@.enabled_features == plan.enabled_features@
                    &&& created->Ok_0.0@.active_queue_families == plan.active_queue_families@
                    &&& created->Ok_0.1@ == plan.queues_to_get@
                },
                Err(error) => created is Err && Some(created->Err_0) == DeviceCreationError::of(
                    error,
                ),
            },
    {
        match reply {
            Ok(handle) => {
                let DevicePlan {
                    physical_device,
                    api_version,
                    queue_create_infos: _,
                    enabled_layers: _,
                    enabled_extensions,
                    enabled_features,
                    features_in_chain: _,
                    active_queue_families,
                    queues_to_get,
                } = plan;
                let device = Device {
                    handle,
                    instance: physical_device.instance().clone(),
                    physical_device: physical_device.index(),
                    api_version,
                    enabled_extensions,
                    enabled_features,
                    active_queue_families,
                };
                Ok((Arc::new(device), queues_to_get))
            },
            Err(error) => Err(DeviceCreationError::from_error(error)),
        }
    }

    /// Creates a new `Device`.
    ///
    /// The driver is asked through `create_device`, which gets the plan of the device and returns
    /// its handle, and then, for each queue, through `get_device_queue`, which gets the handle of
    /// the device, the id of the queue family and the index of the queue within it, and returns
    /// the handle of the queue. The names of the instance's layers are handed over with the plan,
    /// so they must be names that C can read.
    pub fn new<'a, C, G>(
        physical_device: PhysicalDevice<'a>,
        create_info: DeviceCreateInfo<'_>,
        create_device: C,
        get_device_queue: G,
    ) -> (created: Result<(Arc<Device>, Vec<Arc<Queue>>), DeviceCreationError>) where
        C: FnOnce(&DevicePlan<'a>) -> Result<u64, Error>,
        G: Fn(u64, u32, u32) -> u64,

        requires
            create_info@.is_proper_for(physical_device@),
            create_info@.fault(physical_device@) is None
                ==> physical_device@.instance.layers_are_c_strings(),
            forall|plan: &DevicePlan<'a>|
                create_info@.fault(physical_device@) is None && plan.is_for(
                    create_info@,
                    physical_device@,
                ) ==> call_requires(create_device, (plan,)),
            forall|plan: &DevicePlan<'a>, error: Error|
                create_info@.fault(physical_device@) is None && plan.is_for(
                    create_info@,
                    physical_device@,
                ) && call_ensures(create_device, (plan,), Err(error)) ==> DeviceCreationError::of(
                    error,
                ) is Some,
            forall|plan: &DevicePlan<'a>, handle: u64, i: int|
                create_info@.fault(physical_device@) is None && plan.is_for(
                    create_info@,
                    physical_device@,
                ) && #[trigger] call_ensures(create_device, (plan,), Ok(handle)) && 0 <= i
                    < plan.queues_to_get@.len() ==> call_requires(
                    get_device_queue,
                    (
                        handle,
                        (#[trigger] plan.queues_to_get@[i]).family,
                        plan.queues_to_get@[i].id,
                    ),
                ),
        ensures
            match create_info@.fault(physical_device@) {
                Some(error) => created == Err::<
                    (Arc<Device>, Vec<Arc<Queue>>),
                    DeviceCreationError,
                >(error),
                None => exists|plan: DevicePlan<'a>, reply: Result<u64, Error>| #[trigger]
                    call_ensures(create_device, (&plan,), reply) && plan.is_for(
                        create_info@,
                        physical_device@,
                    ) && match reply {
                        Ok(handle) => {
                            &&& created is Ok
                            &&& created->Ok_0.0@ == plan.device(handle)
                            &&& Queue::are_of(
                                created->Ok_0.1@,
                                created->Ok_0.0@,
                                plan.queues_to_get@,
                                get_device_queue,
                            )
                        },
                        Err(error) => created is Err && Some(created->Err_0)
                            == DeviceCreationError::of(error),
                    },
            },
            created matches Ok((device, queues)) ==> {
                &&& device@.physical_device == physical_device@
                &&& forall|name: Seq<char>| #[trigger]
                    crate::names::listed(device@.enabled_features, name) <==> {
                        ||| crate::names::listed(create_info.enabled_features@, name)
                        ||| name == "robust_buffer_access"@
                    }
                &&& forall|name: Seq<char>| #[trigger]
                    crate::names::listed(device@.enabled_extensions, name) <==> {
                        ||| crate::names::listed(create_info.enabled_extensions@, name)
                        ||| name == "VK_KHR_portability_subset"@ && crate::names::listed(
                            physical_device@.info().supported_extensions@,
                            "VK_KHR_portability_subset"@,
                        )
                    }
                &&& forall|i: int|
                    0 <= i < queues@.len() ==> (#[trigger] queues@[i])@.device == device@
            },
    {
        let ghost request = create_info@;
        let plan = match create_info.plan(physical_device) {
            Ok(plan) => plan,
            Err(error) => {
                return Err(error);
            },
        };
        let reply = create_device(&plan);
        let ghost the_plan = plan;
        let (device, queues_to_get) = match Device::from_plan(plan, reply) {
            Ok(created) => created,
            Err(error) => {
                return Err(error);
            },
        };
        let mut queues: Vec<Arc<Queue>> = Vec::new();
        let mut i: usize = 0;
        while i < queues_to_get.len()
            invariant
                i <= queues_to_get@.len(),
                queues_to_get@ == the_plan.queues_to_get@,
                the_plan.wf(),
                device@ == the_plan.device(device@.handle),
                forall|k: int|
                    0 <= k < the_plan.queues_to_get@.len() ==> call_requires(
                        get_device_queue,
                        (
                            device@.handle,
                            (#[trigger] the_plan.queues_to_get@[k]).family,
                            the_plan.queues_to_get@[k].id,
                        ),
                    ),
                Queue::are_of(
                    queues@,
                    device@,
                    the_plan.queues_to_get@.take(i as int),
                    get_device_queue,
                ),
            decreases queues_to_get@.len() - i,
        {
            let queue = queues_to_get.get(i);
            assert(queue == the_plan.queues_to_get@[i as int]);
            let handle = get_device_queue(device.handle, queue.family, queue.id);
            queues.push(Queue::from_handle(&device, queue, handle));
            i += 1;
        }
        assert(the_plan.queues_to_get@.take(i as int) =~= the_plan.queues_to_get@);
        proof {
            assert forall|name: Seq<char>| #[trigger]
                crate::names::listed(device@.enabled_features, name) <==> {
                    ||| crate::names::listed(request.enabled_features, name)
                    ||| name == "robust_buffer_access"@
                } by {
                crate::laws::law_features_of_device(request, name);
            }
            assert forall|name: Seq<char>| #[trigger]
                crate::names::listed(device@.enabled_extensions, name) <==> {
                    ||| crate::names::listed(request.enabled_extensions, name)
                    ||| name == "VK_KHR_portability_subset"@ && crate::names::listed(
                        physical_device@.info().supported_extensions@,
                        "VK_KHR_portability_subset"@,
                    )
                } by {
                crate::laws::law_extensions_of_device(request, physical_device@, name);
            }
        }
        Ok((device, queues))
    }
}

impl Device {
    /// Returns the handle of the device.
    pub fn handle(&self) -> (handle: u64)
        ensures
            handle == self@.handle,
    {
        self.handle
    }

    /// Returns what the hash of the device is made from.
    pub fn hash_key(&self) -> (key: (u64, u64))
        ensures
            key == self@.hash_input(),
    {
        (self.handle, self.instance.handle)
    }

    /// Returns the Vulkan version supported by the device.
    ///
    /// This is the lower of the physical device's supported version and the instance's
    /// `max_api_version`.
    pub fn api_version(&self) -> (version: Version)
        ensures
            version == self@.api_version,
    {
        self.api_version
    }

    /// Waits until all work on this device has finished. You should never need to call
    /// this function, but it can be useful for debugging or benchmarking purposes.
    ///
    /// The driver is asked through `device_wait_idle`, which gets the handle of the device. Nothing
    /// must be submitted to any of the queues of the device in the meantime.
    pub fn wait<F: FnOnce(u64) -> Result<(), Error>>(&self, device_wait_idle: F) -> (waited: Result<
        (),
        OomError,
    >)
        requires
            call_requires(device_wait_idle, (self@.handle,)),
            forall|error: Error|
                call_ensures(device_wait_idle, (self@.handle,), Err(error)) ==> OomError::of(
                    error,
                ) is Some,
        ensures
            exists|reply: Result<(), Error>| #[trigger]
                call_ensures(device_wait_idle, (self@.handle,), reply) && OomError::is_outcome(
                    reply,
                    waited,
                ),
    {
        OomError::check(device_wait_idle(self.handle))
    }

    /// Returns the instance used to create this device.
    pub fn instance(&self) -> (instance: &Arc<Instance>)
        ensures
            **instance == self@.physical_device.instance,
    {
        &self.instance
    }

    /// Returns the physical device that was used to create this device.
    pub fn physical_device(&self) -> (physical_device: PhysicalDevice<'_>)
        ensures
            physical_device@ == self@.physical_device,
    {
        proof {
            use_type_invariant(self);
        }
        PhysicalDevice::from_index(&self.instance, self.physical_device).unwrap()
    }

    /// Returns the queues families that this device uses.
    pub fn active_queue_families(&self) -> (families: Vec<QueueFamily<'_>>)
        ensures
            families@.len() == self@.active_queue_families.len(),
            forall|i: int|
                0 <= i < families@.len() ==> (#[trigger] families@[i])@ == (
                crate::physical::QueueFamilyView {
                    physical_device: self@.physical_device,
                    id: self@.active_queue_families[i],
                }),
    {
        proof {
            use_type_invariant(self);
        }
        let physical_device = self.physical_device();
        let mut families: Vec<QueueFamily<'_>> = Vec::new();
        let mut i: usize = 0;
        while i < self.active_queue_families.len()
            invariant
                i <= self@.active_queue_families.len(),
                self@.wf(),
                physical_device@ == self@.physical_device,
                families@.len() == i,
                forall|k: int|
                    0 <= k < i ==> (#[trigger] families@[k])@ == (
                    crate::physical::QueueFamilyView {
                        physical_device: self@.physical_device,
                        id: self@.active_queue_families[k],
                    }),
            decreases self@.active_queue_families.len() - i,
        {
            let id = self.active_queue_families.get(i);
            families.push(physical_device.queue_family_by_id(id).unwrap());
            i += 1;
        }
        families
    }

    /// Returns the extensions that have been enabled on the device.
    pub fn enabled_extensions(&self) -> (extensions: &DeviceExtensions)
        ensures
            extensions@ == self@.enabled_extensions,
    {
        &self.enabled_extensions
    }

    /// Returns the features that have been enabled on the device.
    pub fn enabled_features(&self) -> (features: &Features)
        ensures
            features@ == self@.enabled_features,
    {
        &self.enabled_features
    }

    /// Retrieves the properties of an external file descriptor when imported as a given external
    /// handle type.
    ///
    /// An error will be returned if the `khr_external_memory_fd` extension was not enabled on the
    /// device, or if `handle_type` is [`ExternalMemoryHandleType::OpaqueFd`].
    ///
    /// `file` must be a handle to external memory that was created outside the Vulkan API. The
    /// driver is asked through `get_memory_fd_properties`, which gets the handle of the device, the
    /// handle type and the file, and returns the bitmask of memory types.
    pub fn memory_fd_properties<F, G: FnOnce(u64, ExternalMemoryHandleType, F) -> Result<u32, Error>>(
        &self,
        handle_type: ExternalMemoryHandleType,
        file: F,
        get_memory_fd_properties: G,
    ) -> (properties: Result<MemoryFdProperties, MemoryFdPropertiesError>)
        requires
            self@.has_memory_fd() && handle_type != ExternalMemoryHandleType::OpaqueFd ==> {
                &&& call_requires(
                    get_memory_fd_properties,
                    (self@.handle, handle_type, file),
                )
                &&& forall|error: Error|
                    call_ensures(
                        get_memory_fd_properties,
                        (self@.handle, handle_type, file),
                        Err(error),
                    ) ==> MemoryFdPropertiesError::of(error) is Some
            },
        ensures
            if !self@.has_memory_fd() {
                properties == Err::<MemoryFdProperties, MemoryFdPropertiesError>(
                    MemoryFdPropertiesError::NotSupported,
                )
            } else if handle_type == ExternalMemoryHandleType::OpaqueFd {
                properties == Err::<MemoryFdProperties, MemoryFdPropertiesError>(
                    MemoryFdPropertiesError::InvalidExternalHandleType,
                )
            } else {
                exists|reply: Result<u32, Error>| #[trigger]
                    call_ensures(
                        get_memory_fd_properties,
                        (self@.handle, handle_type, file),
                        reply,
                    ) && MemoryFdProperties::is_outcome(reply, properties)
            },
            properties == Err::<MemoryFdProperties, MemoryFdPropertiesError>(
                MemoryFdPropertiesError::NotSupported,
            ) <==> !crate::names::listed(
                self@.enabled_extensions,
                "VK_KHR_external_memory_fd"@,
            ),
            crate::names::listed(self@.enabled_extensions, "VK_KHR_external_memory_fd"@)
                && handle_type != ExternalMemoryHandleType::OpaqueFd ==> exists|
                reply: Result<u32, Error>,
            | #[trigger]
                call_ensures(
                    get_memory_fd_properties,
                    (self@.handle, handle_type, file),
                    reply,
                ) && match reply {
                    Ok(bits) => properties is Ok && properties->Ok_0.memory_type_bits == bits,
                    Err(Error::OutOfHostMemory) => properties is Err && properties->Err_0
                        == MemoryFdPropertiesError::OutOfHostMemory,
                    Err(_) => properties is Err && properties->Err_0
                        == MemoryFdPropertiesError::InvalidExternalHandle,
                },
    {
        if !self.enabled_extensions.contains(KHR_EXTERNAL_MEMORY_FD) {
            return Err(MemoryFdPropertiesError::NotSupported);
        }
        if handle_type == ExternalMemoryHandleType::OpaqueFd {
            return Err(MemoryFdPropertiesError::InvalidExternalHandleType);
        }
        MemoryFdProperties::check(get_memory_fd_properties(self.handle, handle_type, file))
    }

    /// Assigns a human-readable name to `object` for debugging purposes.
    ///
    /// If `object_name` is `None`, a previously set object name is removed. The driver is asked
    /// through `set_object_name`, which gets the handle of the device, the number of the object's
    /// type, the object's handle and the name.
    pub fn set_debug_utils_object_name<
        T: VulkanObject + DeviceOwned,
        F: FnOnce(u64, i32, u64, Option<&str>) -> Result<(), Error>,
    >(&self, object: &T, object_name: Option<&str>, set_object_name: F) -> (named: Result<
        (),
        OomError,
    >)
        requires
            forall|device: &Arc<Device>| #[trigger]
                call_ensures(T::device, (object,), device) ==> device@.handle == self@.handle,
            object_name matches Some(name) ==> !name@.contains('\0'),
            forall|object_type: i32, object_handle: u64|
                call_ensures(T::object_type, (), object_type) && call_ensures(
                    T::internal_object,
                    (object,),
                    object_handle,
                ) ==> #[trigger] call_requires(
                    set_object_name,
                    (self@.handle, object_type, object_handle, object_name),
                ),
            forall|object_type: i32, object_handle: u64, error: Error|
                call_ensures(T::object_type, (), object_type) && call_ensures(
                    T::internal_object,
                    (object,),
                    object_handle,
                ) && #[trigger] call_ensures(
                    set_object_name,
                    (self@.handle, object_type, object_handle, object_name),
                    Err(error),
                ) ==> OomError::of(error) is Some,
        ensures
            exists|object_type: i32, object_handle: u64, reply: Result<(), Error>| #[trigger]
                call_ensures(
                    set_object_name,
                    (self@.handle, object_type, object_handle, object_name),
                    reply,
                ) && call_ensures(T::object_type, (), object_type) && call_ensures(
                    T::internal_object,
                    (object,),
                    object_handle,
                ) && OomError::is_outcome(reply, named),
    {
        let object_type = T::object_type();
        let object_handle = object.internal_object();
        let handle = self.handle();
        let reply = set_object_name(handle, object_type, object_handle, object_name);
        OomError::check(reply)
    }
}

impl DeviceView {
    /// Whether the properties of file descriptors can be asked for.
    pub open spec fn has_memory_fd(self) -> bool {
        crate::names::listed(self.enabled_extensions, KHR_EXTERNAL_MEMORY_FD@)
    }
}

impl PartialEq for Device {
    fn eq(&self, other: &Self) -> (equal: bool) {
        self.handle == other.handle && *self.instance == *other.instance
    }
}

impl vstd::std_specs::cmp::PartialEqSpecImpl for Device {
    open spec fn obeys_eq_spec() -> bool {
        true
    }

    open spec fn eq_spec(&self, other: &Self) -> bool {
        self@.same_as(other@)
    }
}

impl Eq for Device {

}

impl Hash for Device {
    fn hash<H: Hasher>(&self, state: &mut H)
        ensures
            exists|first: &mut H, second: &mut H| #[trigger]
                call_ensures(feed_u64::<H>, (self@.hash_input().0, first), ()) && #[trigger]
                call_ensures(feed_u64::<H>, (self@.hash_input().1, second), ())
                    && *first == *old(state) && *final(first) == *second
                    && *final(second) == *final(state),
    {
        let (handle, instance) = self.hash_key();
        feed_u64(handle, state);
        feed_u64(instance, state);
    }
}

/// A type of handles to external memory.
#[derive(Clone, Copy, Debug, PartialEq, Eq, Structural)]
pub enum ExternalMemoryHandleType {
    OpaqueFd,
    OpaqueWin32,
    OpaqueWin32Kmt,
    D3D11Texture,
    D3D11TextureKmt,
    D3D12Heap,
    D3D12Resource,
    HostAllocation,
    HostMappedForeignMemory,
    DmaBuf,
    AndroidHardwareBuffer,
    ZirconVmo,
    RdmaAddress,
}

/// The properties of a Unix file descriptor when it is imported.
#[derive(Clone, Copy, Debug)]
#[non_exhaustive]
pub struct MemoryFdProperties {
    /// A bitmask of the indices of memory types that can be used with the file.
    pub memory_type_bits: u32,
}

impl MemoryFdProperties {
    /// Whether `checked` is what becomes of the reply of the driver.
    pub open spec fn is_outcome(
        reply: Result<u32, Error>,
        checked: Result<MemoryFdProperties, MemoryFdPropertiesError>,
    ) -> bool {
        match reply {
            Ok(bits) => checked is Ok && checked->Ok_0.memory_type_bits == bits,
            Err(error) => checked is Err && Some(checked->Err_0) == MemoryFdPropertiesError::of(
                error,
            ),
        }
    }

    /// What becomes of the reply of the driver.
    pub fn check(reply: Result<u32, Error>) -> (checked: Result<
        MemoryFdProperties,
        MemoryFdPropertiesError,
    >)
        requires
            reply matches Err(error) ==> MemoryFdPropertiesError::of(error) is Some,
        ensures
            MemoryFdProperties::is_outcome(reply, checked),
    {
        match reply {
            Ok(memory_type_bits) => Ok(MemoryFdProperties { memory_type_bits }),
            Err(error) => Err(MemoryFdPropertiesError::from_error(error)),
        }
    }
}

impl<'a> DevicePlan<'a> {
    /// A plan for a request that can be met leads to a sound device.
    pub proof fn lemma_sound(
        self,
        request: crate::create::DeviceRequest,
        physical_device: crate::physical::PhysicalDeviceView,
    )
        requires
            physical_device.wf(),
            request.is_proper_for(physical_device),
            request.fault(physical_device) is None,
            self.is_for(request, physical_device),
        ensures
            self.wf(),
    {
        let ids = crate::create::ids_of(request.queues);
        assert forall|id: u32| #[trigger] ids.contains(id) implies id
            < physical_device.info().queue_families@.len() by {
            let i = choose|i: int| 0 <= i < ids.len() && ids[i] == id;
            assert(crate::create::is_proper(request.queues, i, physical_device));
        }
        assert forall|i: int| 0 <= i < self.active_queue_families@.len() implies (
        #[trigger] self.active_queue_families@[i])
            < physical_device.info().queue_families@.len() by {
            assert(self.active_queue_families@.contains(self.active_queue_families@[i]));
            assert(ids.contains(self.active_queue_families@[i]));
        }
        assert forall|i: int| 0 <= i < self.queues_to_get@.len() implies (
        #[trigger] self.queues_to_get@[i]).is_of(self.device(0)) by {
            let r = crate::create::lemma_queue_is_of_request(request.queues, i);
            assert(ids[r] == self.queues_to_get@[i].family);
            assert(crate::create::is_proper(request.queues, r, physical_device));
            assert(request.queues[r].fits());
            assert(ids.contains(self.queues_to_get@[i].family));
        }
    }
}

} // verus!
